use omarchy_mic::text::{
    chars_of, line_bounds, parse_u32_str, push_decimal, push_hex, push_hex_padded,
    push_zero_padded, str_contains, trim_str,
};

fn lines_of(s: &str) -> Vec<String> {
    let v = chars_of(s);
    line_bounds(&v).iter().map(|&(a, b)| v[a..b].iter().collect()).collect()
}

#[test]
fn lines_split_like_str_lines() {
    for s in ["", "a", "a\n", "a\nb", "a\r\nb\r\n", "\n", "\n\n", "a\rb\n", "x\r", "a\n\nb"] {
        let expected: Vec<String> = s.lines().map(|l| l.to_string()).collect();
        assert_eq!(lines_of(s), expected, "{s:?}");
    }
}

#[test]
fn trim_removes_unicode_whitespace() {
    assert_eq!(trim_str("  a b\t\n"), "a b");
    assert_eq!(trim_str("\u{3000}x\u{a0}"), "x");
    assert_eq!(trim_str(" \r\n "), "");
    let once = trim_str("\t mixed \n");
    assert_eq!(trim_str(&once), once);
}

#[test]
fn u32_parsing_matches_from_str_radix() {
    for (s, radix) in [
        ("0", 10), ("42", 10), ("+7", 10), ("-1", 10), ("", 10), ("+", 10), ("4294967295", 10),
        ("4294967296", 10), ("99999999999", 10), ("1f", 16), ("FF", 16), ("0000001F", 16),
        ("ffffffff", 16), ("100000000", 16), ("g", 16), ("1f", 10), (" 1", 10),
    ] {
        assert_eq!(parse_u32_str(s, radix), u32::from_str_radix(s, radix).ok(), "{s:?} {radix}");
    }
}

#[test]
fn decimal_formatting() {
    for n in [0u32, 7, 10, 99, 1234, u32::MAX] {
        let mut out = String::new();
        push_decimal(&mut out, n);
        assert_eq!(out, n.to_string());
        let mut padded = String::from("x");
        push_zero_padded(&mut padded, n, 8);
        assert_eq!(padded, format!("x{n:08}"));
    }
}

#[test]
fn hex_formatting() {
    for n in [0u32, 9, 10, 15, 16, 0xABCD, 0x1234_5678, u32::MAX] {
        let mut out = String::new();
        push_hex(&mut out, n);
        assert_eq!(out, format!("{n:X}"));
        let mut padded = String::from("x");
        push_hex_padded(&mut padded, n, 8);
        assert_eq!(padded, format!("x{n:08X}"));
        assert_eq!(parse_u32_str(&padded[1..], 16), Some(n));
    }
}

#[test]
fn substring_search() {
    assert!(str_contains("abc", ""));
    assert!(str_contains("abc", "bc"));
    assert!(!str_contains("abc", "cb"));
    assert!(!str_contains("", "a"));
}
