use edge_agent::text::{
    byte_length, concat3, contains_text, count_char, decimal_text, ends_with, lower_text,
    same_text, starts_with, strip_prefix, trim, trim_end, trim_start,
};

#[test]
fn texts_are_searched() {
    assert!(contains_text("hello", "ell"));
    assert!(contains_text("hello", ""));
    assert!(!contains_text("hello", "hellox"));
    assert!(contains_text("路径为空", "为"));
    assert!(starts_with("hello", "he") && !starts_with("he", "hello"));
    assert!(ends_with("hello", "lo") && !ends_with("hello", "le"));
    assert!(same_text("a", "a") && !same_text("a", "ab"));
    assert_eq!(count_char(&"a-b-c".chars().collect(), '-'), 2);
}

#[test]
fn texts_are_trimmed() {
    assert_eq!(trim("\u{3000} a b\t\n"), "a b");
    assert_eq!(trim("  "), "");
    assert_eq!(trim_end("a//", '/'), "a");
    assert_eq!(trim_start("//a", '/'), "a");
    assert_eq!(trim_end("///", '/'), "");
    assert_eq!(strip_prefix("/files/a", "/files/"), Some("a"));
    assert_eq!(strip_prefix("/file", "/files/"), None);
}

#[test]
fn texts_are_built() {
    assert_eq!(concat3("a", "", "c"), "ac");
    assert_eq!(lower_text("AbÄ"), "abÄ");
    assert_eq!(decimal_text(0), "0");
    assert_eq!(decimal_text(u64::MAX), "18446744073709551615");
    assert_eq!(byte_length("é"), 2);
}
