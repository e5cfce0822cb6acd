use luatos_cli::text::{
    join_strings, parse_u32, split_commas, split_lines, str_ends_with, strip_prefix_str, trim_end_matches_str,
    trim_start_matches_str, u32_text, str_trim, is_white_space_char,
};

#[test]
fn comma_split_keeps_empty_pieces() {
    assert_eq!(split_commas("a,b"), vec!["a", "b"]);
    assert_eq!(split_commas(""), vec![""]);
    assert_eq!(split_commas(",x,"), vec!["", "x", ""]);
}

#[test]
fn join_puts_separator_between() {
    let v: Vec<String> = vec!["a".into(), "b".into(), "c".into()];
    assert_eq!(join_strings(&v, ", "), "a, b, c");
    assert_eq!(join_strings(&[], ", "), "");
    assert_eq!(join_strings(&v[..1], ", "), "a");
}

#[test]
fn decimal_parse_and_print() {
    assert_eq!(parse_u32("0"), Some(0));
    assert_eq!(parse_u32("+7"), Some(7));
    assert_eq!(parse_u32("4294967295"), Some(u32::MAX));
    assert_eq!(parse_u32("4294967296"), None);
    assert_eq!(parse_u32(""), None);
    assert_eq!(parse_u32("+"), None);
    assert_eq!(parse_u32("1a"), None);
    assert_eq!(u32_text(0), "0");
    assert_eq!(u32_text(1234567890), "1234567890");
    assert_eq!(u32_text(u32::MAX), "4294967295");
}

#[test]
fn prefix_and_suffix_stripping() {
    assert_eq!(trim_start_matches_str("ababx", "ab"), "x");
    assert_eq!(trim_end_matches_str("x 1 1", " 1"), "x");
    assert_eq!(trim_start_matches_str("abc", ""), "abc");
    assert_eq!(strip_prefix_str("#define X", "#define "), Some("X"));
    assert_eq!(strip_prefix_str("#def", "#define "), None);
    assert!(str_ends_with("file.bin", ".bin"));
    assert!(!str_ends_with("bin", ".bin"));
}

#[test]
fn lines_split_like_str_lines() {
    assert_eq!(split_lines("a\r\nb\n\nc"), vec!["a", "b", "", "c"]);
    assert_eq!(split_lines("x\n"), vec!["x"]);
    assert!(split_lines("").is_empty());
}

#[test]
fn trim_removes_unicode_white_space_at_both_ends() {
    assert_eq!(str_trim("\u{3000} a b \t\n\u{85}"), "a b");
    assert_eq!(str_trim("\u{A0}x\u{2009}"), "x");
    assert_eq!(str_trim(" \r\n "), "");
    assert_eq!(str_trim("\u{200B}x"), "\u{200B}x");
    for c in ['\t', ' ', '\u{85}', '\u{A0}', '\u{1680}', '\u{2000}', '\u{200A}', '\u{2028}', '\u{2029}', '\u{202F}', '\u{205F}', '\u{3000}', 'a', '\u{200B}', '\u{FEFF}'] {
        assert_eq!(is_white_space_char(c), c.is_whitespace(), "{c:?}");
    }
}
