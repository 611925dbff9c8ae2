use lib::text::{is_whitespace, parse_i32, parse_u16, parse_u32, parse_u64, push_decimal, str_chars, str_eq, trim_bounds};

#[test]
fn unsigned_parsing_follows_from_str() {
    for s in ["0", "+5", "65535", "65536", "", "+", "-1", " 1", "1a", "007"] {
        assert_eq!(parse_u16(s), s.parse::<u16>().ok(), "{s:?}");
        assert_eq!(parse_u32(s), s.parse::<u32>().ok(), "{s:?}");
        assert_eq!(parse_u64(s), s.parse::<u64>().ok(), "{s:?}");
    }
    assert_eq!(parse_u64("18446744073709551615"), Some(u64::MAX));
    assert_eq!(parse_u64("18446744073709551616"), None);
    assert_eq!(parse_u32("4294967296"), None);
}

#[test]
fn signed_parsing_follows_from_str() {
    for s in ["0", "-0", "+9", "-", "+", "", "2147483647", "2147483648", "-2147483648", "-2147483649", "--1", "1e3"] {
        assert_eq!(parse_i32(s), s.parse::<i32>().ok(), "{s:?}");
    }
}

#[test]
fn decimal_rendering() {
    for n in [0u64, 7, 10, 65535, u64::MAX] {
        let mut s = String::from("m=");
        push_decimal(&mut s, n);
        assert_eq!(s, format!("m={}", n));
    }
}

#[test]
fn whitespace_and_trim() {
    for c in ['\t', '\n', '\r', ' ', '\u{85}', '\u{a0}', '\u{2000}', '\u{3000}', 'a', '_', '\u{200b}'] {
        assert_eq!(is_whitespace(c), c.is_whitespace(), "{c:?}");
    }
    let s = "  a b\u{3000}\t";
    let c = str_chars(s);
    let (a, b) = trim_bounds(&c, 0, c.len());
    let t: String = c[a..b].iter().collect();
    assert_eq!(t, s.trim());
}

#[test]
fn string_equality() {
    assert!(str_eq("é-x", "é-x"));
    assert!(!str_eq("ab", "abc"));
    assert!(!str_eq("ab", "ac"));
}
