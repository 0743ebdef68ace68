//! The text operations.

use git_workflow_mcp::infra::git::path::{join_path, worktree_path};
use git_workflow_mcp::text::{
    contains, decimal, ends_with, field_two, join, lines, nonempty_lines, parse_u32,
    rsplit_once, same, split_once, starts_with, strip_all, strip_prefix, trim, word_count,
};

fn s(text: &str) -> String {
    text.to_string()
}

#[test]
fn white_space_is_trimmed() {
    for text in &[
        "", " ", "a", " a b ", "\t\na\r\n", "\u{a0}a\u{3000}", "\u{200b}a",
        "\u{85}\u{2028}x\u{1680}",
    ] {
        assert_eq!(trim(text), text.trim(), "{text:?}");
    }
}

#[test]
fn lines_end_at_line_feeds() {
    for text in &["", "\n", "a", "a\n", "a\r\nb", "a\r", "\r\n", "a\n\nb\n\n", "a\r\r\nb\r"] {
        let expected: Vec<String> = text.lines().map(s).collect();
        assert_eq!(lines(text), expected, "{text:?}");
        let filled: Vec<String> = expected.into_iter().filter(|l| !l.is_empty()).collect();
        assert_eq!(nonempty_lines(text), filled, "{text:?}");
    }
}

#[test]
fn texts_are_parted() {
    for text in &["", "a", "\t", "a\tb", "a\tb\tc", "\ta\t"] {
        let owned = |p: (&str, &str)| (s(p.0), s(p.1));
        assert_eq!(split_once(text, '\t'), text.split_once('\t').map(owned));
        assert_eq!(rsplit_once(text, '\t'), text.rsplit_once('\t').map(owned));
        assert_eq!(field_two(text, '\t'), text.split('\t').nth(1).map(s));
    }
}

#[test]
fn parts_are_found() {
    assert!(ends_with("abc", "bc") && ends_with("abc", "") && !ends_with("bc", "abc"));
    assert!(starts_with("abc", "ab") && starts_with("abc", "") && !starts_with("ab", "abc"));
    assert!(contains("xabcx", "abc") && contains("x", "") && !contains("abab", "abb"));
    assert!(same("\u{e9}", "\u{e9}") && !same("a", "A"));
    assert_eq!(strip_prefix("branch x", "branch "), Some(s("x")));
    assert_eq!(strip_prefix("bran", "branch "), None);
    assert_eq!(strip_all("aaab", "a"), "b");
    assert_eq!(strip_all("refs/refs/x", "refs/"), "x");
}

#[test]
fn numbers_are_written_and_read() {
    for n in &[0, 9, 10, 4294967295, u64::MAX] {
        assert_eq!(decimal(*n), n.to_string());
    }
    for text in &["", "0", "007", "+1", "+", "-1", "4294967295", "4294967296", " 1", "1a", "++1"] {
        assert_eq!(parse_u32(text), text.parse::<u32>().ok(), "{text:?}");
    }
}

#[test]
fn words_are_counted_and_joined() {
    for text in &["", "  ", "a", " a  b\tc\n", "a\u{a0}b"] {
        assert_eq!(word_count(text), text.split_whitespace().count(), "{text:?}");
    }
    let parts = vec![s("a"), s(""), s("b")];
    assert_eq!(join(&parts, 3, ", "), "a, , b");
    assert_eq!(join(&parts, 1, ", "), "a");
    assert_eq!(join(&parts, 0, ", "), "");
}

#[test]
fn paths_are_joined() {
    for (path, name) in &[
        ("/a", "b"), ("/a/", "b"), ("", "b"), ("/a", "/b"), ("a", ""), ("/", "b"), ("a//", "b"),
    ] {
        let expected = std::path::Path::new(path).join(name);
        assert_eq!(join_path(path, name), expected.to_string_lossy());
    }
    assert_eq!(worktree_path("/repo", "x/y"), "/repo/.worktrees/x/y");
}
