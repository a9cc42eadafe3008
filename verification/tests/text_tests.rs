use crabbox::text::{
    char_is_white_space, join, parse_u64, starts_with, strip_prefix, to_hex_padded, trim,
    u64_to_decimal,
};

#[test]
fn trim_removes_unicode_whitespace() {
    assert_eq!(trim("  a b \n"), "a b");
    assert_eq!(trim("\u{3000}x\u{2029}\t"), "x");
    assert_eq!(trim("   "), "");
    assert_eq!(trim(""), "");
    assert_eq!(trim("\u{200b}x"), "\u{200b}x");
    for c in ['\u{85}', '\u{a0}', '\u{1680}', '\u{2000}', '\u{200a}', '\u{202f}', '\u{205f}'] {
        assert!(char_is_white_space(c));
        assert_eq!(c.is_whitespace(), char_is_white_space(c));
    }
    for u in 0u32..0x3100 {
        if let Some(c) = char::from_u32(u) {
            assert_eq!(c.is_whitespace(), char_is_white_space(c), "{:x}", u);
        }
    }
}

#[test]
fn prefixes() {
    assert!(starts_with("crabbox-1", "crabbox-"));
    assert!(!starts_with("crabbox", "crabbox-"));
    assert!(starts_with("x", ""));
    assert_eq!(strip_prefix("crabbox-1", "crabbox-"), Some("1"));
    assert_eq!(strip_prefix("box-1", "crabbox-"), None);
}

#[test]
fn decimal_parsing_matches_std() {
    for s in [
        "0", "+0", "42", "+42", "", "+", "-", "-1", "00012", "1_000", " 1", "1 ",
        "18446744073709551615", "18446744073709551616", "99999999999999999999", "١",
    ] {
        assert_eq!(parse_u64(s), s.parse::<u64>().ok(), "{:?}", s);
    }
}

#[test]
fn decimal_formatting_matches_std() {
    for n in [0u64, 9, 10, 99, 100, 12345, u64::MAX] {
        assert_eq!(u64_to_decimal(n), n.to_string());
        assert_eq!(parse_u64(&u64_to_decimal(n)), Some(n));
    }
}

#[test]
fn hex_formatting() {
    assert_eq!(to_hex_padded(0xabc, 8), "00000abc");
    assert_eq!(to_hex_padded(0x1_2345_6789, 8), "23456789");
    assert_eq!(to_hex_padded(255, 2), "ff");
    assert_eq!(to_hex_padded(255, 0), "");
}

#[test]
fn joining() {
    let parts: Vec<String> = vec!["hello".to_string(), "world".to_string()];
    assert_eq!(join(&parts, " "), "hello world");
    assert_eq!(join(&vec![], " "), "");
    assert_eq!(join(&vec!["a".to_string()], ", "), "a");
    assert_eq!(join(&vec!["a".to_string(), String::new(), "b".to_string()], "-"), "a--b");
}
