use chat_watcher::text::{
    clean_lines, hex_byte, join_with, parse_i64_trimmed, split_str, str_eq, trim, u64_to_dec,
};

#[test]
fn dec_rendering_exact() {
    assert_eq!(u64_to_dec(0), "0");
    assert_eq!(u64_to_dec(9), "9");
    assert_eq!(u64_to_dec(10), "10");
    assert_eq!(u64_to_dec(12345), "12345");
    assert_eq!(u64_to_dec(u64::MAX), "18446744073709551615");
}

#[test]
fn parse_i64_accepts_plain_numbers() {
    assert_eq!(parse_i64_trimmed("42"), Some(42));
    assert_eq!(parse_i64_trimmed("  -7 "), Some(-7));
    assert_eq!(parse_i64_trimmed("+5"), Some(5));
    assert_eq!(parse_i64_trimmed("0"), Some(0));
    assert_eq!(parse_i64_trimmed("1700000000000"), Some(1_700_000_000_000));
}

#[test]
fn parse_i64_rejects_malformed_input() {
    assert_eq!(parse_i64_trimmed(""), None);
    assert_eq!(parse_i64_trimmed("   "), None);
    assert_eq!(parse_i64_trimmed("abc"), None);
    assert_eq!(parse_i64_trimmed("12x"), None);
    assert_eq!(parse_i64_trimmed("-"), None);
    assert_eq!(parse_i64_trimmed("+"), None);
}

#[test]
fn parse_i64_respects_the_integer_range() {
    assert_eq!(parse_i64_trimmed("9223372036854775807"), Some(i64::MAX));
    assert_eq!(parse_i64_trimmed("9223372036854775808"), None);
    assert_eq!(parse_i64_trimmed("-9223372036854775808"), Some(i64::MIN));
    assert_eq!(parse_i64_trimmed("-9223372036854775809"), None);
}

#[test]
fn hex_byte_reads_both_cases() {
    assert_eq!(hex_byte('0', '0'), Some(0x00));
    assert_eq!(hex_byte('f', 'F'), Some(0xff));
    assert_eq!(hex_byte('1', 'a'), Some(0x1a));
    assert_eq!(hex_byte('A', '9'), Some(0xa9));
    assert_eq!(hex_byte('g', '0'), None);
    assert_eq!(hex_byte('0', ' '), None);
}

#[test]
fn trim_removes_surrounding_whitespace() {
    assert_eq!(trim("  hello \t"), "hello");
    assert_eq!(trim("hello"), "hello");
    assert_eq!(trim("   "), "");
    assert_eq!(trim(""), "");
    assert_eq!(trim("\u{a0}x\u{3000}"), "x");
}

#[test]
fn split_keeps_empty_pieces() {
    assert_eq!(split_str("a,b", ','), vec!["a", "b"]);
    assert_eq!(split_str("a,,b", ','), vec!["a", "", "b"]);
    assert_eq!(split_str("", ','), vec![""]);
    assert_eq!(split_str(",", ','), vec!["", ""]);
}

#[test]
fn join_is_split_backwards() {
    let v = vec!["a".to_string(), "b".to_string(), "c".to_string()];
    assert_eq!(join_with(&v, '\n'), "a\nb\nc");
    assert_eq!(join_with(&Vec::new(), '\n'), "");
    assert_eq!(join_with(&vec!["x".to_string()], '\n'), "x");
}

#[test]
fn clean_lines_drops_blank_lines() {
    assert_eq!(clean_lines("foo\n  bar \n\n   \nbaz"), vec!["foo", "bar", "baz"]);
    assert_eq!(clean_lines(""), Vec::<String>::new());
    assert_eq!(clean_lines(" \n "), Vec::<String>::new());
}

#[test]
fn str_eq_compares_characters() {
    assert!(str_eq("abc", "abc"));
    assert!(!str_eq("abc", "abd"));
    assert!(!str_eq("abc", "ab"));
    assert!(str_eq("", ""));
}
