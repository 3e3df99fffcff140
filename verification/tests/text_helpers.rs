use rmr_core::text::{is_whitespace, parse_bool, parse_decimal, split_at_char, trim};

#[test]
fn text_parsing() {
    assert_eq!(parse_decimal("42", u64::MAX), Some(42));
    assert_eq!(parse_decimal("+42", u64::MAX), Some(42));
    assert_eq!(parse_decimal("+", u64::MAX), None);
    assert_eq!(parse_decimal("", u64::MAX), None);
    assert_eq!(parse_decimal("-1", u64::MAX), None);
    assert_eq!(parse_decimal("4294967295", u32::MAX as u64), Some(4294967295));
    assert_eq!(parse_decimal("4294967296", u32::MAX as u64), None);
    assert_eq!(parse_decimal("18446744073709551615", u64::MAX), Some(u64::MAX));
    assert_eq!(parse_decimal("18446744073709551616", u64::MAX), None);
    assert_eq!(parse_bool("true"), Some(true));
    assert_eq!(parse_bool("false"), Some(false));
    assert_eq!(parse_bool("True"), None);
    for s in ["0", "+7", "123456", "x1", " 1", "99999999999999999999"] {
        assert_eq!(parse_decimal(s, u64::MAX), s.parse::<u64>().ok());
    }
}

#[test]
fn text_trim_and_split() {
    assert_eq!(trim(" \t a b \u{3000}\n"), "a b");
    assert_eq!(trim("   "), "");
    assert_eq!(split_at_char("a,,b,", ','), vec!["a", "", "b", ""]);
    assert_eq!(split_at_char("", ','), vec![""]);
}

#[test]
fn whitespace_matches_std() {
    for code in 0u32..0x3100 {
        if let Some(c) = char::from_u32(code) {
            assert_eq!(is_whitespace(c), c.is_whitespace(), "U+{:04X}", code);
        }
    }
    for c in ['\u{feff}', '\u{180e}', '\u{200b}', 'a', '\u{10ffff}'] {
        assert_eq!(is_whitespace(c), c.is_whitespace());
    }
    assert_eq!(trim("\u{3000}127.0.0.1/32\u{85}"), "127.0.0.1/32");
}
