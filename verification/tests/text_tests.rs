use desktoporz::numbers::{decimal, parse_u32, parse_u64};
use desktoporz::text::{eq_ignore_ascii_case, is_blank, replace_all, trim};
use desktoporz::utf16::{decode_utf16_lossy, le_bytes, le_units, to_wide_nul, wide_text};

fn chars(s: &str) -> Vec<char> {
    s.chars().collect()
}

#[test]
fn decimal_writes_numbers() {
    assert_eq!(decimal(0), "0");
    assert_eq!(decimal(7), "7");
    assert_eq!(decimal(1080), "1080");
    assert_eq!(decimal(u64::MAX), "18446744073709551615");
}

#[test]
fn parse_accepts_what_str_parse_accepts() {
    assert_eq!(parse_u32(&chars("42")), Some(42));
    assert_eq!(parse_u32(&chars("+42")), Some(42));
    assert_eq!(parse_u32(&chars("007")), Some(7));
    assert_eq!(parse_u32(&chars("")), None);
    assert_eq!(parse_u32(&chars("+")), None);
    assert_eq!(parse_u32(&chars("-1")), None);
    assert_eq!(parse_u32(&chars(" 1")), None);
    assert_eq!(parse_u32(&chars("4294967295")), Some(u32::MAX));
    assert_eq!(parse_u32(&chars("4294967296")), None);
    assert_eq!(parse_u64(&chars("18446744073709551615")), Some(u64::MAX));
    assert_eq!(parse_u64(&chars("18446744073709551616")), None);
    for n in [0u64, 1, 9, 10, 99, 12345, u32::MAX as u64] {
        assert_eq!(parse_u64(&chars(&n.to_string())), Some(n));
    }
}

#[test]
fn replace_all_matches_str_replace() {
    for (text, pat, rep) in [
        ("Hello {name}!", "{name}", "Ana"),
        ("{a}{a}{a}", "{a}", "x"),
        ("aaaa", "aa", "b"),
        ("abc", "zz", "q"),
        ("", "{x}", "y"),
        ("{x", "{x}", "y"),
    ] {
        let out: String = replace_all(&chars(text), &chars(pat), &chars(rep)).into_iter().collect();
        assert_eq!(out, text.replace(pat, rep));
    }
}

#[test]
fn whitespace_and_case() {
    assert!(is_blank(""));
    assert!(is_blank(" \t\r\n\u{3000}"));
    assert!(!is_blank(" a "));
    assert_eq!(trim("  Google Drive \u{a0}"), "Google Drive");
    assert_eq!(trim("\n\n"), "");
    assert!(eq_ignore_ascii_case("GoogleDriveFS.EXE", "googledrivefs.exe"));
    assert!(!eq_ignore_ascii_case("Ä", "ä"));
    assert!(!eq_ignore_ascii_case("ab", "abc"));
}

#[test]
fn utf16_round_trip_and_lossy_decoding() {
    let text = "Área de trabalho \u{1F600}";
    let wide = to_wide_nul(text);
    let expected: Vec<u16> = text.encode_utf16().chain(std::iter::once(0)).collect();
    assert_eq!(wide, expected);
    assert_eq!(wide_text(&wide), text);
    // An unpaired surrogate decodes to U+FFFD, as String::from_utf16_lossy does.
    let broken = [0x61u16, 0xD800, 0x62, 0xDC00, 0xD83D, 0xDE00];
    assert_eq!(decode_utf16_lossy(&broken), String::from_utf16_lossy(&broken));
    assert_eq!(wide_text(&[0x41, 0x42, 0, 0x43]), "AB");
}

#[test]
fn little_endian_bytes() {
    let units = [0x0041u16, 0xD83D, 0x00E9];
    let bytes = le_bytes(&units);
    assert_eq!(bytes, vec![0x41, 0x00, 0x3D, 0xD8, 0xE9, 0x00]);
    assert_eq!(le_units(&bytes), units.to_vec());
    assert_eq!(le_units(&[0x41, 0x00, 0x42]), vec![0x41]);
}
