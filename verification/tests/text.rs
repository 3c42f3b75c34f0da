use conductor::text::{truncate_str, truncate_str_tail};

#[test]
fn truncate_str_ascii() {
    assert_eq!(truncate_str("hello world", 5), "hello");
    assert_eq!(truncate_str("hello", 10), "hello");
    assert_eq!(truncate_str("", 5), "");
}

#[test]
fn truncate_str_multibyte() {
    let s = "ab\u{1F600}cd";
    assert_eq!(truncate_str(s, 6), "ab\u{1F600}");
    assert_eq!(truncate_str(s, 4), "ab");
    assert_eq!(truncate_str(s, 3), "ab");
    assert_eq!(truncate_str(s, 5), "ab");
}

#[test]
fn truncate_str_tail_ascii() {
    assert_eq!(truncate_str_tail("hello world", 5), "world");
    assert_eq!(truncate_str_tail("hello", 10), "hello");
}

#[test]
fn truncate_str_tail_multibyte() {
    let s = "ab\u{1F600}cd";
    assert_eq!(truncate_str_tail(s, 6), "\u{1F600}cd");
    assert_eq!(truncate_str_tail(s, 5), "cd");
    assert_eq!(truncate_str_tail(s, 3), "cd");
}

#[test]
fn truncate_str_zero_budget() {
    assert_eq!(truncate_str("abc", 0), "");
    assert_eq!(truncate_str_tail("abc", 0), "");
}
