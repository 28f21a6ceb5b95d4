use vstd::prelude::*;
use crate::i18n::{args_view, fill_args, t_args, t_spec, Catalog};
use crate::numbers::{decimal_spec, hex4_spec, push_hex4};
use crate::text::{append_str, eq_ignore_ascii_case, eq_ignore_ascii_case_spec, trim, trim_spec};
use crate::utf16::{decode_utf16_lossy, decode_utf16_lossy_spec, encode_utf16_spec, until_nul_spec,
    wide_text};

verus! {

/// The file description of the Google Drive for desktop process that stays running, as
/// the Task Manager shows it.
pub open spec fn google_drive_description_spec() -> Seq<char> {
    "Google Drive"@
}

/// The file description of the Google Drive for desktop process.
pub fn google_drive_description() -> (r: &'static str)
    ensures
        r@ == google_drive_description_spec(),
{
    "Google Drive"
}

/// How often to look for the process, in milliseconds.
pub const POLL_INTERVAL_MS: u64 = 1000;

/// How long to let Google Drive settle after it appears, in milliseconds.
pub const SETTLE_MS: u64 = 5000;

/// Whether a process entry's executable name (a NUL-terminated UTF-16 buffer) is
/// `process_name`, ignoring ASCII case.
pub fn exe_name_matches(exe_file: &[u16], process_name: &str) -> (r: bool)
    ensures
        r == eq_ignore_ascii_case_spec(decode_utf16_lossy_spec(until_nul_spec(exe_file@)), process_name@),
{
    let name = wide_text(exe_file);
    eq_ignore_ascii_case(name.as_str(), process_name)
}

/// Whether a file description, trimmed, is `description`, ignoring ASCII case.
pub fn description_matches(found: &str, description: &str) -> (r: bool)
    ensures
        r == eq_ignore_ascii_case_spec(trim_spec(found@), description@),
{
    let trimmed = trim(found);
    eq_ignore_ascii_case(trimmed.as_str(), description)
}

/// The (language, code page) pairs of a version resource: each 32-bit entry holds the
/// language in its low half and the code page in its high half.
pub open spec fn translation_pairs_spec(values: Option<Seq<u32>>) -> Seq<(u16, u16)> {
    match values {
        Some(v) => Seq::new(v.len(), |i: int| ((v[i] % 65536) as u16, (v[i] / 65536) as u16)),
        None => seq![(0x0409u16, 0x04B0u16), (0x0409u16, 0x04E4u16)],
    }
}

/// The pairs to try, given the translation table when it could be read (with at least one
/// entry); else US English with the Unicode and the ANSI code page.
pub fn translation_pairs(values: Option<&[u32]>) -> (r: Vec<(u16, u16)>)
    ensures
        r@ == translation_pairs_spec(match values {
            Some(v) => Some(v@),
            None => None,
        }),
{
    match values {
        Some(v) => {
            let mut r: Vec<(u16, u16)> = Vec::new();
            for i in 0..v.len()
                invariant
                    r@.len() == i,
                    forall|j: int| 0 <= j < i ==> r@[j] == ((v@[j] % 65536) as u16, (v@[j] / 65536) as u16),
            {
                r.push(((v[i] % 65536) as u16, (v[i] / 65536) as u16));
            }
            assert(r@ == translation_pairs_spec(Some(v@)));
            r
        },
        None => {
            let mut r: Vec<(u16, u16)> = Vec::new();
            r.push((0x0409, 0x04B0));
            r.push((0x0409, 0x04E4));
            r
        },
    }
}

/// The query for a file description: `\StringFileInfo\LLLLCCCC\FileDescription`.
pub open spec fn description_query_spec(lang: u16, codepage: u16) -> Seq<char> {
    "\\StringFileInfo\\"@ + hex4_spec(lang) + hex4_spec(codepage) + "\\FileDescription"@
}

/// The query for the file description in one language and code page, as NUL-terminated UTF-16.
pub fn description_query(lang: u16, codepage: u16) -> (r: Vec<u16>)
    ensures
        r@ == encode_utf16_spec(description_query_spec(lang, codepage)).push(0),
{
    let mut s = "\\StringFileInfo\\".to_owned();
    push_hex4(&mut s, lang);
    push_hex4(&mut s, codepage);
    append_str(&mut s, "\\FileDescription");
    crate::utf16::to_wide_nul(s.as_str())
}

/// The text of a version value of `len` units, its last unit being the terminating NUL.
pub fn description_text(value: &[u16]) -> (r: String)
    ensures
        r@ == decode_utf16_lossy_spec(if value@.len() == 0 {
            value@
        } else {
            value@.drop_last()
        }),
{
    if value.len() == 0 {
        return decode_utf16_lossy(value);
    }
    let mut units: Vec<u16> = Vec::new();
    let n = value.len() - 1;
    for i in 0..n
        invariant
            n == value@.len() - 1,
            units@ == value@.take(i as int),
    {
        units.push(value[i]);
        assert(value@.take(i + 1) == value@.take(i as int).push(value@[i as int]));
    }
    assert(value@.take(n as int) == value@.drop_last());
    decode_utf16_lossy(units.as_slice())
}

/// What to do after one look for the process.
#[derive(Debug, Clone, Copy, PartialEq, Eq, Structural)]
pub enum ProcessWait {
    /// The process runs: let it settle, then go on.
    Detected,
    /// The time allowed has passed.
    TimedOut,
    /// Wait `POLL_INTERVAL_MS` and look again.
    Sleep,
}

/// The decision after one look: `running` says whether the process was found, and
/// `elapsed_nanos` how long the wait has lasted.
pub fn wait_step(running: bool, elapsed_nanos: u128, timeout_secs: Option<u64>) -> (r: ProcessWait)
    ensures
        r == (if running {
            ProcessWait::Detected
        } else if timeout_secs matches Some(limit) && elapsed_nanos >= limit * 1_000_000_000 {
            ProcessWait::TimedOut
        } else {
            ProcessWait::Sleep
        }),
{
    if running {
        return ProcessWait::Detected;
    }
    match timeout_secs {
        Some(limit) => {
            if elapsed_nanos >= limit as u128 * 1_000_000_000 {
                ProcessWait::TimedOut
            } else {
                ProcessWait::Sleep
            }
        },
        None => ProcessWait::Sleep,
    }
}

/// The message when the time allowed has passed.
pub fn timeout_message(catalog: &Catalog, process: &str, limit_secs: u64) -> (r: String)
    ensures
        r@ == fill_args(
            t_spec(catalog@, "process_watcher.timeout"@),
            seq![("process"@, process@), ("seconds"@, decimal_spec(limit_secs as nat))],
        ),
{
    let secs = crate::numbers::decimal(limit_secs);
    let args = [("process", process), ("seconds", secs.as_str())];
    assert(args_view(args@) == seq![("process"@, process@), ("seconds"@, secs@)]);
    t_args(catalog, "process_watcher.timeout", &args)
}

} // verus!
