use ned::args::{get_args, split_words};
use ned::group::group_index;

fn strings(words: &[&str]) -> Vec<String> {
    words.iter().map(|w| w.to_string()).collect()
}

#[test]
fn defaults_come_first() {
    let all = get_args(Some("-u -c  --exclude *.bk"), strings(&["foo", "a.txt"]));
    assert_eq!(all, strings(&["-u", "-c", "--exclude", "*.bk", "foo", "a.txt"]));
}

#[test]
fn without_defaults_the_arguments_stay() {
    assert_eq!(get_args(None, strings(&["foo", "a b"])), strings(&["foo", "a b"]));
}

#[test]
fn record_separator_counts_as_a_space() {
    assert_eq!(get_args(Some("-u\u{1e}-c"), Vec::new()), strings(&["-u", "-c"]));
}

#[test]
fn empty_defaults_add_nothing() {
    assert_eq!(get_args(Some(""), strings(&["x"])), strings(&["x"]));
    assert_eq!(get_args(Some(" \t\n"), strings(&["x"])), strings(&["x"]));
}

#[test]
fn words_between_any_white_space() {
    assert_eq!(split_words("  a\tb\u{a0}c\u{2003}d\u{3000}e\r\n"), strings(&["a", "b", "c", "d", "e"]));
    assert_eq!(split_words("\u{e9}t\u{e9} \u{65e5}\u{672c}"), strings(&["\u{e9}t\u{e9}", "\u{65e5}\u{672c}"]));
    assert!(split_words("").is_empty());
}

#[test]
fn group_designators() {
    assert_eq!(group_index("1"), Some(1));
    assert_eq!(group_index("0"), Some(0));
    assert_eq!(group_index(" 12\t"), Some(12));
    assert_eq!(group_index("+3"), Some(3));
    assert_eq!(group_index("007"), Some(7));
    assert_eq!(group_index("name"), None);
    assert_eq!(group_index(""), None);
    assert_eq!(group_index("  "), None);
    assert_eq!(group_index("+"), None);
    assert_eq!(group_index("-1"), None);
    assert_eq!(group_index("1a"), None);
    assert_eq!(group_index("1 2"), None);
    assert_eq!(group_index("++1"), None);
    assert_eq!(group_index("\u{661}"), None);
}

#[test]
fn group_designator_at_the_limit() {
    assert_eq!(group_index(&usize::MAX.to_string()), Some(usize::MAX));
    assert_eq!(group_index("340282366920938463463374607431768211456"), None);
    let beyond = format!("{}0", usize::MAX);
    assert_eq!(group_index(&beyond), None);
}
