use vscode_remote_control::text::{
    chars_of, contains_str, join_strings, last_path_segment, nonempty_lines, same_text,
    split_str, text_lines, trim_str,
};

#[test]
fn trim_removes_unicode_whitespace_at_both_ends() {
    assert_eq!(trim_str("  true\n"), "true");
    assert_eq!(trim_str("\u{3000}\u{a0}x y\t\r\n"), "x y");
    assert_eq!(trim_str(" \t "), "");
    assert_eq!(trim_str(""), "");
    assert_eq!(trim_str("\u{200b}x"), "\u{200b}x");
}

#[test]
fn trim_agrees_with_str_trim() {
    for s in ["", " a ", "\n\na\nb\n", "\u{2003}x\u{205f}", "a\u{85}", "\u{180e}x"] {
        assert_eq!(trim_str(s), s.trim());
    }
}

#[test]
fn lines_follow_str_lines() {
    for s in ["", "a", "a\n", "a\nb", "a\r\nb\r\n", "a\rb", "\n\n", "x\r", "\r\n"] {
        let expected: Vec<String> = s.lines().map(|l| l.to_string()).collect();
        assert_eq!(text_lines(s), expected, "input {:?}", s);
    }
}

#[test]
fn nonempty_lines_skip_empty_ones() {
    assert_eq!(nonempty_lines("one\n\ntwo\r\n\n"), vec!["one", "two"]);
    assert!(nonempty_lines("\n\n").is_empty());
}

#[test]
fn contains_finds_substrings() {
    assert!(contains_str("my-project — Visual Studio Code", "project"));
    assert!(!contains_str("abc", "abd"));
    assert!(contains_str("abc", ""));
    assert!(!contains_str("", "a"));
    assert!(contains_str("aaab", "aab"));
}

#[test]
fn split_follows_str_split() {
    for (s, sep) in [
        ("file.rs \u{2014} folder", " \u{2014} "),
        ("folder", " \u{2014} "),
        ("", " \u{2014} "),
        ("aaa", "aa"),
        ("a--b--", "--"),
    ] {
        let expected: Vec<String> = s.split(sep).map(|p| p.to_string()).collect();
        assert_eq!(split_str(s, sep), expected, "input {:?}", s);
    }
}

#[test]
fn last_path_segment_ignores_trailing_slashes() {
    assert_eq!(last_path_segment("file:///Users/me/folder-name"), "folder-name");
    assert_eq!(last_path_segment("file:///Users/me/folder-name///"), "folder-name");
    assert_eq!(last_path_segment("plain"), "plain");
    assert_eq!(last_path_segment("///"), "");
    assert_eq!(last_path_segment(""), "");
}

#[test]
fn join_puts_the_separator_between_parts() {
    let parts = vec!["Code - Insiders".to_string(), "Code".to_string()];
    assert_eq!(join_strings(&parts, " / "), "Code - Insiders / Code");
    assert_eq!(join_strings(&vec!["one".to_string()], " / "), "one");
    assert_eq!(join_strings(&Vec::new(), " / "), "");
}

#[test]
fn same_text_and_chars() {
    assert!(same_text("Code", "Code"));
    assert!(!same_text("Code", "code"));
    assert_eq!(chars_of("a—b"), vec!['a', '—', 'b']);
}
