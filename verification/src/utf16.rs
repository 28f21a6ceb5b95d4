use vstd::prelude::*;
use crate::text::{char_from_scalar, push_char};

verus! {

broadcast use {vstd::utf8::char_u32_cast, vstd::utf8::char_is_scalar};

/// The UTF-16 code units of one character.
pub open spec fn utf16_units(c: char) -> Seq<u16> {
    let v = c as u32;
    if v < 0x10000 {
        seq![v as u16]
    } else {
        seq![(0xD800 + (v - 0x10000) / 1024) as u16, (0xDC00 + (v - 0x10000) % 1024) as u16]
    }
}

/// `str::encode_utf16`: the UTF-16 code units of a text.
pub open spec fn encode_utf16_spec(s: Seq<char>) -> Seq<u16>
    decreases s.len(),
{
    if s.len() == 0 {
        seq![]
    } else {
        utf16_units(s[0]) + encode_utf16_spec(s.skip(1))
    }
}

pub open spec fn is_high_surrogate(u: u16) -> bool {
    0xD800 <= u <= 0xDBFF
}

pub open spec fn is_low_surrogate(u: u16) -> bool {
    0xDC00 <= u <= 0xDFFF
}

/// The character that a high and a low surrogate stand for.
pub open spec fn surrogate_pair_value(hi: u16, lo: u16) -> u32 {
    (0x10000 + (hi - 0xD800) * 1024 + (lo - 0xDC00)) as u32
}

/// `String::from_utf16_lossy`: decodes UTF-16, putting U+FFFD for each unpaired surrogate.
pub open spec fn decode_utf16_lossy_spec(u: Seq<u16>) -> Seq<char>
    decreases u.len(),
{
    if u.len() == 0 {
        seq![]
    } else if is_high_surrogate(u[0]) && u.len() >= 2 && is_low_surrogate(u[1]) {
        seq![surrogate_pair_value(u[0], u[1]) as char] + decode_utf16_lossy_spec(u.skip(2))
    } else if is_high_surrogate(u[0]) || is_low_surrogate(u[0]) {
        seq!['\u{FFFD}'] + decode_utf16_lossy_spec(u.skip(1))
    } else {
        seq![(u[0] as u32) as char] + decode_utf16_lossy_spec(u.skip(1))
    }
}

/// The code units before the first NUL, or all of them when there is none.
pub open spec fn until_nul_spec(u: Seq<u16>) -> Seq<u16>
    decreases u.len(),
{
    if u.len() == 0 || u[0] == 0 {
        seq![]
    } else {
        seq![u[0]] + until_nul_spec(u.skip(1))
    }
}

fn scalar_char(v: u32) -> (c: char)
    requires
        v < 0xD800 || (0xE000 <= v && v <= 0x10FFFF),
    ensures
        c as u32 == v,
        c == v as char,
{
    match char_from_scalar(v) {
        Some(c) => {
            proof {
                vstd::utf8::char_u32_cast(c, v);
            }
            c
        },
        None => {
            assert(false);
            '\0'
        },
    }
}

/// Appends the UTF-16 code units of `s` to `out`.
pub fn push_utf16(out: &mut Vec<u16>, s: &str)
    ensures
        final(out)@ == old(out)@ + encode_utf16_spec(s@),
{
    let cs = crate::text::chars_of(s);
    let n = cs.len();
    let ghost start = out@;
    let mut i: usize = 0;
    assert(cs@.skip(0) == cs@);
    while i < n
        invariant
            n == cs@.len(),
            cs@ == s@,
            i <= n,
            start + encode_utf16_spec(s@) == out@ + encode_utf16_spec(cs@.skip(i as int)),
        decreases n - i,
    {
        let ghost rest = cs@.skip(i as int);
        assert(rest[0] == cs@[i as int]);
        assert(rest.skip(1) == cs@.skip(i + 1));
        let ghost before = out@;
        let v = cs[i] as u32;
        if v < 0x10000 {
            out.push(v as u16);
        } else {
            out.push((0xD800 + (v - 0x10000) / 1024) as u16);
            out.push((0xDC00 + (v - 0x10000) % 1024) as u16);
        }
        assert(out@ == before + utf16_units(cs@[i as int]));
        assert(before + (utf16_units(rest[0]) + encode_utf16_spec(rest.skip(1))) == out@
            + encode_utf16_spec(rest.skip(1)));
        i = i + 1;
    }
    assert(out@ + encode_utf16_spec(cs@.skip(n as int)) == out@) by {
        assert(cs@.skip(n as int).len() == 0);
    }
}

/// The text as NUL-terminated UTF-16, as the Windows API takes it.
pub fn to_wide_nul(s: &str) -> (out: Vec<u16>)
    ensures
        out@ == encode_utf16_spec(s@).push(0),
{
    let mut out: Vec<u16> = Vec::new();
    push_utf16(&mut out, s);
    out.push(0);
    out
}

/// `String::from_utf16_lossy`.
pub fn decode_utf16_lossy(u: &[u16]) -> (out: String)
    ensures
        out@ == decode_utf16_lossy_spec(u@),
{
    let n = u.len();
    let mut out = String::new();
    let mut i: usize = 0;
    assert(u@.skip(0) == u@);
    while i < n
        invariant
            n == u@.len(),
            i <= n,
            decode_utf16_lossy_spec(u@) == out@ + decode_utf16_lossy_spec(u@.skip(i as int)),
        decreases n - i,
    {
        let ghost rest = u@.skip(i as int);
        let ghost before = out@;
        let a = u[i];
        assert(rest[0] == a);
        if 0xD800 <= a && a <= 0xDBFF && i + 1 < n && 0xDC00 <= u[i + 1] && u[i + 1] <= 0xDFFF {
            let b = u[i + 1];
            assert(rest[1] == b);
            let v: u32 = 0x10000 + (a as u32 - 0xD800) * 1024 + (b as u32 - 0xDC00);
            push_char(&mut out, scalar_char(v));
            assert(rest.skip(2) == u@.skip(i + 2));
            assert(before + (seq![surrogate_pair_value(a, b) as char] + decode_utf16_lossy_spec(
                rest.skip(2),
            )) == out@ + decode_utf16_lossy_spec(rest.skip(2)));
            i = i + 2;
        } else {
            if 0xD800 <= a && a <= 0xDFFF {
                push_char(&mut out, '\u{FFFD}');
            } else {
                push_char(&mut out, scalar_char(a as u32));
            }
            assert(rest.skip(1) == u@.skip(i + 1));
            assert(out@ == before + decode_utf16_lossy_spec(rest).take(1));
            assert(before + decode_utf16_lossy_spec(rest) == out@ + decode_utf16_lossy_spec(
                rest.skip(1),
            ));
            i = i + 1;
        }
    }
    assert(out@ + decode_utf16_lossy_spec(u@.skip(n as int)) == out@) by {
        assert(u@.skip(n as int).len() == 0);
    }
    out
}

/// The code units before the first NUL.
pub fn until_nul(u: &[u16]) -> (out: Vec<u16>)
    ensures
        out@ == until_nul_spec(u@),
{
    let n = u.len();
    let mut out: Vec<u16> = Vec::new();
    let mut i: usize = 0;
    assert(u@.skip(0) == u@);
    while i < n && u[i] != 0
        invariant
            n == u@.len(),
            i <= n,
            until_nul_spec(u@) == out@ + until_nul_spec(u@.skip(i as int)),
        decreases n - i,
    {
        let ghost rest = u@.skip(i as int);
        assert(rest[0] == u@[i as int]);
        assert(rest.skip(1) == u@.skip(i + 1));
        let ghost before = out@;
        out.push(u[i]);
        assert(before + (seq![rest[0]] + until_nul_spec(rest.skip(1))) == out@ + until_nul_spec(
            rest.skip(1),
        ));
        i = i + 1;
    }
    assert(until_nul_spec(u@.skip(i as int)).len() == 0);
    assert(out@ + until_nul_spec(u@.skip(i as int)) == out@);
    out
}

/// The text of a NUL-terminated UTF-16 buffer: the units before the first NUL, decoded.
pub fn wide_text(u: &[u16]) -> (out: String)
    ensures
        out@ == decode_utf16_lossy_spec(until_nul_spec(u@)),
{
    let units = until_nul(u);
    decode_utf16_lossy(units.as_slice())
}

/// Little-endian 16-bit units of a byte buffer; an odd last byte is left out.
pub open spec fn le_units_spec(b: Seq<u8>) -> Seq<u16> {
    Seq::new(b.len() / 2, |i: int| (b[2 * i] as int + 256 * (b[2 * i + 1] as int)) as u16)
}

/// The byte buffer read as little-endian 16-bit units.
pub fn le_units(b: &[u8]) -> (out: Vec<u16>)
    ensures
        out@ == le_units_spec(b@),
{
    let n = b.len() / 2;
    let mut out: Vec<u16> = Vec::new();
    for i in 0..n
        invariant
            n == b@.len() / 2,
            out@.len() == i,
            forall|j: int| 0 <= j < i ==> out@[j] == le_units_spec(b@)[j],
    {
        assert(2 * i + 1 < b.len());
        let lo = b[2 * i] as u16;
        let hi = b[2 * i + 1] as u16;
        out.push(lo + 256 * hi);
    }
    assert(out@ == le_units_spec(b@));
    out
}

/// Decoding the UTF-16 encoding of a text gives the text back.
pub proof fn lemma_decode_encode(s: Seq<char>)
    ensures
        decode_utf16_lossy_spec(encode_utf16_spec(s)) == s,
    decreases s.len(),
{
    if s.len() > 0 {
        let c = s[0];
        let units = utf16_units(c);
        let rest = encode_utf16_spec(s.skip(1));
        let all = units + rest;
        lemma_decode_encode(s.skip(1));
        let v = c as u32;
        vstd::utf8::char_u32_cast(c, v);
        vstd::utf8::char_is_scalar(c);
        if v < 0x10000 {
            assert(all[0] == v as u16);
            assert(all[0] as u32 == v);
            assert(all.skip(1) == rest);
        } else {
            let hi = (0xD800 + (v - 0x10000) / 1024) as u16;
            let lo = (0xDC00 + (v - 0x10000) % 1024) as u16;
            assert(vstd::utf8::is_scalar(v));
            assert(hi as int == 0xD800 + (v - 0x10000) / 1024);
            assert(lo as int == 0xDC00 + (v - 0x10000) % 1024);
            assert(all[0] == hi);
            assert(all[1] == lo);
            assert(all.skip(2) == rest);
            assert(surrogate_pair_value(hi, lo) == v);
            assert(surrogate_pair_value(hi, lo) as char == c);
        }
        assert(s == seq![c] + s.skip(1));
    }
}

/// The NUL-terminated encoding of a text without NUL reads back as the text.
pub proof fn lemma_wide_round_trip(s: Seq<char>)
    requires
        forall|i: int| 0 <= i < s.len() ==> s[i] != '\0',
    ensures
        decode_utf16_lossy_spec(until_nul_spec(encode_utf16_spec(s).push(0))) == s,
{
    lemma_until_nul_encoded(s);
    lemma_decode_encode(s);
}

proof fn lemma_until_nul_encoded(s: Seq<char>)
    requires
        forall|i: int| 0 <= i < s.len() ==> s[i] != '\0',
    ensures
        until_nul_spec(encode_utf16_spec(s).push(0)) == encode_utf16_spec(s),
    decreases s.len(),
{
    if s.len() == 0 {
        assert(encode_utf16_spec(s).push(0) == seq![0u16]);
    } else {
        let c = s[0];
        let units = utf16_units(c);
        let rest = encode_utf16_spec(s.skip(1));
        lemma_until_nul_encoded(s.skip(1));
        let all = encode_utf16_spec(s).push(0);
        assert(all == units + rest.push(0));
        assert(c != '\0');
        assert((c as u32) != 0) by {
            if (c as u32) == 0 {
                vstd::utf8::char_u32_cast(c, 0);
                vstd::utf8::char_u32_cast('\0', 0);
            }
        }
        if (c as u32) < 0x10000 {
            assert(all[0] != 0);
            assert(all.skip(1) == rest.push(0));
        } else {
            let v = c as u32;
            vstd::utf8::char_is_scalar(c);
            assert(vstd::utf8::is_scalar(v));
            assert(all[0] as int == 0xD800 + (v - 0x10000) / 1024);
            assert(all[0] != 0);
            assert(all.skip(1)[0] as int == 0xDC00 + (v - 0x10000) % 1024);
            assert(all.skip(1)[0] != 0);
            assert(all.skip(1).skip(1) == rest.push(0));
            assert(until_nul_spec(all.skip(1)) == seq![all.skip(1)[0]] + until_nul_spec(rest.push(0)));
        }
    }
}

/// The bytes of 16-bit units, low byte first, as the registry stores a string.
pub open spec fn le_bytes_spec(u: Seq<u16>) -> Seq<u8> {
    Seq::new(2 * u.len(), |i: int| if i % 2 == 0 {
        (u[i / 2] % 256) as u8
    } else {
        (u[i / 2] / 256) as u8
    })
}

/// The bytes of 16-bit units, low byte first.
pub fn le_bytes(u: &[u16]) -> (out: Vec<u8>)
    ensures
        out@ == le_bytes_spec(u@),
{
    let mut out: Vec<u8> = Vec::new();
    for i in 0..u.len()
        invariant
            out@.len() == 2 * i,
            forall|j: int| 0 <= j < 2 * i ==> out@[j] == le_bytes_spec(u@)[j],
    {
        out.push((u[i] % 256) as u8);
        out.push((u[i] / 256) as u8);
    }
    assert(out@ == le_bytes_spec(u@));
    out
}

/// Reading back the bytes of units gives the units.
pub proof fn lemma_le_round_trip(u: Seq<u16>)
    ensures
        le_units_spec(le_bytes_spec(u)) == u,
{
    let b = le_bytes_spec(u);
    assert forall|i: int| 0 <= i < u.len() implies #[trigger] le_units_spec(b)[i] == u[i] by {
        assert(b[2 * i] == (u[i] % 256) as u8);
        assert(b[2 * i + 1] == (u[i] / 256) as u8);
    }
    assert(le_units_spec(b) =~= u);
}

} // verus!
