use workbench::text::{
    contains_str, decimal_string, ends_with_str, first_word_str, json_escape_str, last_word_str,
    parse_u32_str, second_word_str, split_lines, starts_with_str, text_equal, trim_str,
};

#[test]
fn trim_removes_unicode_white_space() {
    assert_eq!(trim_str("  \t hello world \r\n"), "hello world");
    assert_eq!(trim_str("\u{3000}x\u{a0}"), "x");
    assert_eq!(trim_str("   "), "");
    assert_eq!(trim_str(""), "");
}

#[test]
fn contains_and_prefix() {
    assert!(contains_str("npm ERR! code 1", "ERR!"));
    assert!(!contains_str("npm ok", "ERR!"));
    assert!(contains_str("abc", ""));
    assert!(starts_with_str("npm WARN deprecated", "npm WARN"));
    assert!(!starts_with_str("npm", "npm WARN"));
}

#[test]
fn decimal_notation() {
    assert_eq!(decimal_string(0), "0");
    assert_eq!(decimal_string(7), "7");
    assert_eq!(decimal_string(5678), "5678");
    assert_eq!(decimal_string(u64::MAX), "18446744073709551615");
}

#[test]
fn parse_unsigned() {
    assert_eq!(parse_u32_str("1234"), Some(1234));
    assert_eq!(parse_u32_str("+5"), Some(5));
    assert_eq!(parse_u32_str("4294967295"), Some(u32::MAX));
    assert_eq!(parse_u32_str("4294967296"), None);
    assert_eq!(parse_u32_str(""), None);
    assert_eq!(parse_u32_str("+"), None);
    assert_eq!(parse_u32_str("12a"), None);
    assert_eq!(parse_u32_str("-1"), None);
}

#[test]
fn lines_like_str_lines() {
    let text = "a\r\nb\n\nc";
    let expected: Vec<String> = text.lines().map(|l| l.to_string()).collect();
    assert_eq!(split_lines(text), expected);
    assert_eq!(split_lines("x\n"), vec!["x".to_string()]);
    assert!(split_lines("").is_empty());
}

#[test]
fn last_word_of_line() {
    assert_eq!(last_word_str("  TCP  0.0.0.0:5678  0.0.0.0:0  LISTENING  4242  "), "4242");
    assert_eq!(last_word_str("single"), "single");
    assert_eq!(last_word_str("   "), "");
}

#[test]
fn equal_text() {
    assert!(text_equal("linux", "linux"));
    assert!(!text_equal("linux", "linu"));
    assert!(!text_equal("linux", "Linux"));
}

#[test]
fn words_and_suffixes() {
    assert_eq!(first_word_str("  llama3:latest  abc "), "llama3:latest");
    assert_eq!(first_word_str("   "), "");
    assert_eq!(second_word_str("  TCP  0.0.0.0:5678  x"), "0.0.0.0:5678");
    assert_eq!(second_word_str("TCP"), "");
    assert!(ends_with_str("0.0.0.0:5678", ":5678"));
    assert!(!ends_with_str("0.0.0.0:56789", ":5678"));
    assert!(!ends_with_str("5678", ":5678"));
}

#[test]
fn json_string_escaping() {
    assert_eq!(json_escape_str("llama3:latest"), "llama3:latest");
    assert_eq!(json_escape_str("a\"b"), "a\\\"b");
    assert_eq!(json_escape_str("a\\b"), "a\\\\b");
    assert_eq!(json_escape_str("\t\u{1f}"), "\\u0009\\u001f");
    assert_eq!(json_escape_str("é 📦"), "é 📦");
    assert_eq!(json_escape_str(""), "");
}
