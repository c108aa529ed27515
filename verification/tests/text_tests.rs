use kswitch::text::{join_lines, split_lines, str_contains};

#[test]
fn split_lines_matches_line_semantics() {
    assert_eq!(split_lines(""), Vec::<String>::new());
    assert_eq!(split_lines("one"), vec!["one".to_string()]);
    assert_eq!(split_lines("one\ntwo"), vec!["one".to_string(), "two".to_string()]);
    assert_eq!(split_lines("one\ntwo\n"), vec!["one".to_string(), "two".to_string()]);
    assert_eq!(split_lines("one\r\ntwo\r\n"), vec!["one".to_string(), "two".to_string()]);
    assert_eq!(split_lines("\n\n"), vec!["".to_string(), "".to_string()]);
}

#[test]
fn join_lines_terminates_each_line() {
    assert_eq!(join_lines(&vec![]), "");
    assert_eq!(join_lines(&vec!["a".to_string(), "b".to_string()]), "a\nb\n");
    let original = "x\ny\nz\n";
    assert_eq!(join_lines(&split_lines(original)), original);
}

#[test]
fn str_contains_finds_substrings() {
    assert!(str_contains("org.kde.konsole-123", "konsole"));
    assert!(str_contains("abc", ""));
    assert!(str_contains("abc", "abc"));
    assert!(!str_contains("abc", "abcd"));
    assert!(!str_contains("", "a"));
}
