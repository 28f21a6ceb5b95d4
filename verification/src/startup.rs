use vstd::prelude::*;
use crate::text::{append_str, chars_of, push_char, string_of, sub_chars, trim_end_char,
    trim_end_char_spec};
use crate::utf16::{decode_utf16_lossy, decode_utf16_lossy_spec, encode_utf16_spec, le_units,
    le_units_spec};

verus! {

/// The name of the value, under the Run key, that starts the tool with Windows.
pub fn run_value_name() -> (r: &'static str)
    ensures
        r@ == "desk0k"@,
{
    "desk0k"
}

/// The extended-length prefix `\\?\` that the Run key does not understand.
pub open spec fn unc_prefix() -> Seq<char> {
    seq!['\\', '\\', '?', '\\']
}

/// The path without a leading `\\?\`.
pub open spec fn strip_unc_prefix_spec(path: Seq<char>) -> Seq<char> {
    if path.len() >= 4 && path.take(4) == unc_prefix() {
        path.skip(4)
    } else {
        path
    }
}

/// Removes the extended-length prefix `\\?\` from a path, if it has one.
pub fn strip_unc_prefix(path: &str) -> (r: String)
    ensures
        r@ == strip_unc_prefix_spec(path@),
{
    let cs = chars_of(path);
    if cs.len() >= 4 && cs[0] == '\\' && cs[1] == '\\' && cs[2] == '?' && cs[3] == '\\' {
        assert(path@.take(4) == unc_prefix());
        let rest = sub_chars(cs.as_slice(), 4, cs.len());
        assert(rest@ == path@.skip(4));
        string_of(rest.as_slice())
    } else {
        assert(path@.len() >= 4 ==> path@.take(4)[0] == path@[0] && path@.take(4)[1] == path@[1]
            && path@.take(4)[2] == path@[2] && path@.take(4)[3] == path@[3]);
        path.to_owned()
    }
}

/// The command that the Run key holds: `"EXE" restore "PROFILE"`.
pub open spec fn restore_command_spec(exe: Seq<char>, profile: Seq<char>) -> Seq<char> {
    seq!['"'] + exe + "\" restore \""@ + profile + seq!['"']
}

/// The command that restores `profile` at logon, as NUL-terminated UTF-16.
pub fn command_line(exe: &str, profile: &str) -> (r: Vec<u16>)
    ensures
        r@ == encode_utf16_spec(restore_command_spec(exe@, profile@)).push(0),
{
    let mut s = String::new();
    push_char(&mut s, '"');
    append_str(&mut s, exe);
    append_str(&mut s, "\" restore \"");
    append_str(&mut s, profile);
    push_char(&mut s, '"');
    assert(s@ =~= restore_command_spec(exe@, profile@));
    crate::utf16::to_wide_nul(s.as_str())
}

/// The message after turning the start with Windows on.
pub open spec fn enable_message_spec(profile: Seq<char>, exe: Seq<char>) -> Seq<char> {
    "Inicialização automática ATIVADA. Perfil '"@ + profile
        + "' será restaurado ao iniciar o Windows.\nCaminho registrado: "@ + exe
}

/// The message after turning the start with Windows on.
pub fn enable_message(profile: &str, exe: &str) -> (r: String)
    ensures
        r@ == enable_message_spec(profile@, exe@),
{
    let mut s = "Inicialização automática ATIVADA. Perfil '".to_owned();
    append_str(&mut s, profile);
    append_str(&mut s, "' será restaurado ao iniciar o Windows.\nCaminho registrado: ");
    append_str(&mut s, exe);
    s
}

/// The message when the Run key cannot be opened; `status` is the error as the system gives it.
pub fn open_key_error(status: &str) -> (r: String)
    ensures
        r@ == "Não foi possível abrir a chave Run do registro: "@ + status@,
{
    let mut s = "Não foi possível abrir a chave Run do registro: ".to_owned();
    append_str(&mut s, status);
    s
}

/// The message when the command cannot be written.
pub fn write_error(status: &str) -> (r: String)
    ensures
        r@ == "Falha ao gravar no registro: "@ + status@,
{
    let mut s = "Falha ao gravar no registro: ".to_owned();
    append_str(&mut s, status);
    s
}

/// The Windows error code for a value that does not exist.
pub const ERROR_FILE_NOT_FOUND: u32 = 2;

/// What turning the start with Windows off reports, from the code that deleting the value
/// gave (0 for success) and that code as the system writes it.
pub open spec fn disable_outcome_spec(code: u32, status: Seq<char>) -> Result<Seq<char>, Seq<char>> {
    if code == 0 {
        Ok("Inicialização automática DESATIVADA."@)
    } else if code == ERROR_FILE_NOT_FOUND {
        Ok("Inicialização automática já estava desativada."@)
    } else {
        Err("Falha ao remover do registro: "@ + status)
    }
}

/// What turning the start with Windows off reports.
pub fn disable_outcome(code: u32, status: &str) -> (r: Result<String, String>)
    ensures
        r matches Ok(m) ==> disable_outcome_spec(code, status@) == Ok::<Seq<char>, Seq<char>>(m@),
        r matches Err(m) ==> disable_outcome_spec(code, status@) == Err::<Seq<char>, Seq<char>>(m@),
{
    if code == 0 {
        Ok("Inicialização automática DESATIVADA.".to_owned())
    } else if code == ERROR_FILE_NOT_FOUND {
        Ok("Inicialização automática já estava desativada.".to_owned())
    } else {
        let mut s = "Falha ao remover do registro: ".to_owned();
        append_str(&mut s, status);
        Err(s)
    }
}

/// The text of a registry string value: its bytes as little-endian UTF-16, decoded, without
/// the NULs at its end.
pub open spec fn registry_string_spec(bytes: Seq<u8>) -> Seq<char> {
    trim_end_char_spec(decode_utf16_lossy_spec(le_units_spec(bytes)), '\0')
}

/// The text of a registry string value.
pub fn registry_string(bytes: &[u8]) -> (r: String)
    ensures
        r@ == registry_string_spec(bytes@),
{
    let units = le_units(bytes);
    let text = decode_utf16_lossy(units.as_slice());
    let cs = chars_of(text.as_str());
    let trimmed = trim_end_char(cs.as_slice(), '\0');
    string_of(trimmed.as_slice())
}

/// The status report: off when the value cannot be read, else on, with the command.
pub open spec fn status_message_spec(value: Option<Seq<u8>>) -> Seq<char> {
    match value {
        None => "Inicialização automática: DESATIVADA"@,
        Some(bytes) => "Inicialização automática: ATIVADA\nComando registrado: "@
            + registry_string_spec(bytes),
    }
}

/// The status report, given the bytes of the Run value when it could be read.
pub fn status_message(value: Option<&[u8]>) -> (r: String)
    ensures
        r@ == status_message_spec(match value {
            Some(b) => Some(b@),
            None => None,
        }),
{
    match value {
        None => "Inicialização automática: DESATIVADA".to_owned(),
        Some(bytes) => {
            let mut s = "Inicialização automática: ATIVADA\nComando registrado: ".to_owned();
            let text = registry_string(bytes);
            append_str(&mut s, text.as_str());
            s
        },
    }
}

/// A text without NUL, stored in the registry as NUL-terminated UTF-16, reads back as itself.
pub proof fn lemma_registry_round_trip(s: Seq<char>)
    requires
        forall|i: int| 0 <= i < s.len() ==> s[i] != '\0',
    ensures
        registry_string_spec(crate::utf16::le_bytes_spec(encode_utf16_spec(s).push(0))) == s,
{
    let units = encode_utf16_spec(s).push(0);
    crate::utf16::lemma_le_round_trip(units);
    crate::utf16::lemma_decode_encode(s);
    let encoded = encode_utf16_spec(s);
    lemma_decode_nul_tail(encoded);
    assert(decode_utf16_lossy_spec(units) == s.push('\0'));
    assert(s.push('\0').drop_last() == s);
    assert(s.push('\0').last() == '\0');
    if s.len() > 0 {
        assert(s.last() != '\0');
    }
    assert(trim_end_char_spec(s, '\0') == s);
    assert(trim_end_char_spec(s.push('\0'), '\0') == trim_end_char_spec(s, '\0'));
}

proof fn lemma_decode_nul_tail(u: Seq<u16>)
    ensures
        decode_utf16_lossy_spec(u.push(0)) == decode_utf16_lossy_spec(u).push('\0'),
    decreases u.len(),
{
    let v = u.push(0);
    if u.len() == 0 {
        assert(v == seq![0u16]);
        assert(v.skip(1).len() == 0);
        assert(decode_utf16_lossy_spec(v.skip(1)) == Seq::<char>::empty());
        vstd::utf8::char_u32_cast('\0', '\0' as u32);
        assert(('\0' as u32) == 0);
        assert(decode_utf16_lossy_spec(v) == seq![(v[0] as u32) as char] + decode_utf16_lossy_spec(
            v.skip(1),
        ));
        assert(decode_utf16_lossy_spec(u) == Seq::<char>::empty());
    } else {
        assert(v[0] == u[0]);
        if u.len() >= 2 {
            assert(v[1] == u[1]);
        }
        if crate::utf16::is_high_surrogate(u[0]) && u.len() >= 2 && crate::utf16::is_low_surrogate(
            u[1],
        ) {
            assert(v.skip(2) == u.skip(2).push(0));
            lemma_decode_nul_tail(u.skip(2));
            let head = seq![crate::utf16::surrogate_pair_value(u[0], u[1]) as char];
            assert(decode_utf16_lossy_spec(v) == head + decode_utf16_lossy_spec(v.skip(2)));
            assert(decode_utf16_lossy_spec(u) == head + decode_utf16_lossy_spec(u.skip(2)));
            assert(head + decode_utf16_lossy_spec(u.skip(2)).push('\0') == (head
                + decode_utf16_lossy_spec(u.skip(2))).push('\0'));
        } else {
            assert(!(crate::utf16::is_high_surrogate(v[0]) && v.len() >= 2
                && crate::utf16::is_low_surrogate(v[1]))) by {
                if u.len() == 1 {
                    assert(v[1] == 0);
                }
            }
            assert(v.skip(1) == u.skip(1).push(0));
            lemma_decode_nul_tail(u.skip(1));
            let head = if crate::utf16::is_high_surrogate(u[0]) || crate::utf16::is_low_surrogate(
                u[0],
            ) {
                seq!['\u{FFFD}']
            } else {
                seq![(u[0] as u32) as char]
            };
            assert(decode_utf16_lossy_spec(v) == head + decode_utf16_lossy_spec(v.skip(1)));
            assert(decode_utf16_lossy_spec(u) == head + decode_utf16_lossy_spec(u.skip(1)));
            assert(head + decode_utf16_lossy_spec(u.skip(1)).push('\0') == (head
                + decode_utf16_lossy_spec(u.skip(1))).push('\0'));
        }
    }
}

} // verus!
