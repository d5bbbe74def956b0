use vshell::text::contains_char;
use vshell::text::parse_usize;
use vshell::text::split_char;
use vshell::text::split_whitespace_tokens;
use vshell::text::str_eq;
use vshell::text::str_starts_with;
use vshell::text::trim_str;

#[test]
fn str_eq_compares_contents() {
    assert!(str_eq("abc", "abc"));
    assert!(!str_eq("abc", "abd"));
    assert!(!str_eq("abc", "ab"));
    assert!(str_eq("", ""));
}

#[test]
fn starts_with_checks_prefix() {
    assert!(str_starts_with("history", "his"));
    assert!(str_starts_with("history", ""));
    assert!(!str_starts_with("his", "history"));
    assert!(!str_starts_with("history", "hos"));
}

#[test]
fn trim_removes_surrounding_whitespace() {
    assert_eq!(trim_str("  a b \t"), "a b".to_string());
    assert_eq!(trim_str("\r\n"), String::new());
    assert_eq!(trim_str("x"), "x".to_string());
    assert_eq!(trim_str(""), String::new());
}

#[test]
fn split_keeps_empty_segments() {
    assert_eq!(
        split_char("a||b", '|'),
        vec!["a".to_string(), String::new(), "b".to_string()]
    );
    assert_eq!(split_char("", '|'), vec![String::new()]);
    assert_eq!(split_char("ab", '|'), vec!["ab".to_string()]);
    assert_eq!(split_char("a|b", '|'), vec!["a".to_string(), "b".to_string()]);
}

#[test]
fn split_whitespace_drops_empty_words() {
    assert_eq!(
        split_whitespace_tokens("  echo \t hi  "),
        vec!["echo".to_string(), "hi".to_string()]
    );
    assert_eq!(split_whitespace_tokens("   "), Vec::<String>::new());
}

#[test]
fn contains_char_scans() {
    assert!(contains_char("a|b", '|'));
    assert!(!contains_char("ab", '|'));
}

#[test]
fn parse_usize_reads_decimals() {
    assert_eq!(parse_usize("0"), Some(0));
    assert_eq!(parse_usize("42"), Some(42));
    assert_eq!(parse_usize("+7"), Some(7));
    assert_eq!(parse_usize("007"), Some(7));
}

#[test]
fn parse_usize_rejects_bad_shapes() {
    assert_eq!(parse_usize(""), None);
    assert_eq!(parse_usize("+"), None);
    assert_eq!(parse_usize("-1"), None);
    assert_eq!(parse_usize("1a"), None);
    assert_eq!(parse_usize("4 2"), None);
}

#[test]
fn parse_usize_rejects_overflow() {
    // one more digit than usize::MAX can hold
    let big = format!("{}0", usize::MAX);
    assert_eq!(parse_usize(&big), None);
    let max = format!("{}", usize::MAX);
    assert_eq!(parse_usize(&max), Some(usize::MAX));
}
