use ui_test::text;

#[test]
fn replaces_every_occurrence() {
    assert_eq!(text::replace("aXbX", "X", "--"), "a--b--");
    assert_eq!(text::replace("aaa", "aa", "b"), "ba");
    assert_eq!(text::replace("", "a", "b"), "");
    assert_eq!(text::replace("\u{e4}b\u{e4}", "\u{e4}", "ae"), "aebae");
}

#[test]
fn the_empty_pattern_occurs_everywhere() {
    assert_eq!(text::replace("ab", "", "-"), "ab".replace("", "-"));
    assert_eq!(text::replace("ab", "", "-"), "-a-b-");
    assert_eq!(text::replace("", "", "-"), "-");
    assert!(text::contains("", ""));
    assert!(text::contains("a", ""));
}

#[test]
fn replacing_what_is_absent_changes_nothing() {
    assert_eq!(text::replace("hello", "xyz", "!"), "hello");
}

#[test]
fn finds_texts_in_texts() {
    assert!(text::contains("x86_64-unknown-linux-gnu", "linux"));
    assert!(!text::contains("x86_64", "x86_64-unknown"));
    assert!(text::contains("abc", "abc"));
    assert!(text::starts_with("s390x-unknown", "s390x"));
    assert!(!text::starts_with("s390", "s390x"));
    assert!(text::ends_with("x86_64-gnux32", "gnux32"));
    assert!(!text::ends_with("x32", "gnux32"));
    assert!(text::same("a", "a"));
    assert!(!text::same("a", "ab"));
    assert!(!text::same("ab", "a"));
}

#[test]
fn writes_numbers() {
    assert_eq!(text::number(0), "0");
    assert_eq!(text::number(9), "9");
    assert_eq!(text::number(10), "10");
    assert_eq!(text::number(40703), "40703");
    assert_eq!(text::number(usize::MAX), usize::MAX.to_string());
}

#[test]
fn joins_and_slices() {
    assert_eq!(text::join2("a", "b"), "ab");
    assert_eq!(text::join3("a", "b", "c"), "abc");
    assert_eq!(text::concatenate(&vec!["x".to_string(), "".to_string(), "yz".to_string()]), "xyz");
    assert_eq!(text::slice(&text::characters("hello"), 1, 3), "el");
    assert_eq!(text::copy_all(&vec!["p".to_string(), "q".to_string()]), vec!["p", "q"]);
}
