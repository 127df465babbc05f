use ant::text::{concat3, join_strings, replace, split_lines, split_words, to_lowercase, trim_chars};

#[test]
fn replace_is_left_to_right_without_overlap() {
    assert_eq!(replace("aaaa", "aa", "b"), "bb");
    assert_eq!(replace("commit fix commit x", "commit ", ""), "fix x");
    assert_eq!(replace("abc", "z", "y"), "abc");
}

#[test]
fn lines_follow_str_lines() {
    let s: Vec<char> = "a\r\nb\n\nc\r".chars().collect();
    let ls: Vec<String> = split_lines(&s).into_iter().map(|l| l.into_iter().collect()).collect();
    assert_eq!(ls, "a\r\nb\n\nc\r".lines().map(|l| l.to_string()).collect::<Vec<_>>());
    let t: Vec<char> = "x\n".chars().collect();
    assert_eq!(split_lines(&t).len(), 1);
}

#[test]
fn words_and_trim() {
    let s: Vec<char> = " \t a  bc\u{a0}d ".chars().collect();
    assert_eq!(split_words(&s), vec!["a".to_string(), "bc".to_string(), "d".to_string()]);
    let t: String = trim_chars(&s).into_iter().collect();
    assert_eq!(t, "a  bc\u{a0}d");
    assert_eq!(join_strings(&vec!["x".into(), "y".into()], ", "), "x, y");
    assert_eq!(concat3("a", "b", "c"), "abc");
    assert_eq!(to_lowercase("ÀB"), "àb");
}
