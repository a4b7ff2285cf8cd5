use ned::pattern::{PatternFlags, PatternSpec};
use ned::replace::replace;

fn plain(pattern: &str) -> PatternSpec {
    let flags = PatternFlags {
        ignore_case: false,
        dot_matches_newline: false,
        multiline: false,
        extended: false,
    };
    PatternSpec::new(pattern, &flags).unwrap()
}

#[test]
fn replace_without_a_match_returns_the_content() {
    let (new_content, changed) = replace(&plain("zzz"), "anything $1", "foo\nbar\n");
    assert_eq!(new_content, "foo\nbar\n");
    assert!(!changed);
}

#[test]
fn replace_every_match() {
    let (new_content, changed) = replace(&plain("o+"), "0", "foo boo\nmoo");
    assert_eq!(new_content, "f0 b0\nm0");
    assert!(changed);
}

#[test]
fn replace_by_the_matched_text_is_no_change() {
    let (new_content, changed) = replace(&plain("foo"), "foo", "a foo and a foo\n");
    assert_eq!(new_content, "a foo and a foo\n");
    assert!(!changed);
}

#[test]
fn replace_with_groups() {
    let (new_content, changed) =
        replace(&plain("(?P<last>\\w+), (\\w+)"), "$2 $last", "Springsteen, Bruce");
    assert_eq!(new_content, "Bruce Springsteen");
    assert!(changed);
}

#[test]
fn replace_with_the_whole_match_is_no_change() {
    let (new_content, changed) = replace(&plain("o+"), "$0", "foo boo");
    assert_eq!(new_content, "foo boo");
    assert!(!changed);
}

#[test]
fn replace_across_lines() {
    let (new_content, changed) = replace(&plain("a\nb"), "-", "a\nb\na\nb\n");
    assert_eq!(new_content, "-\n-\n");
    assert!(changed);
}

#[test]
fn replace_twice_changes_nothing_more() {
    let pattern = plain("foo");
    let (first, changed) = replace(&pattern, "bar", "foo foo");
    assert!(changed);
    assert_eq!(first, "bar bar");
    let (second, changed_again) = replace(&pattern, "bar", first.as_str());
    assert_eq!(second, first);
    assert!(!changed_again);
}

#[test]
fn replace_in_empty_content() {
    let (new_content, changed) = replace(&plain("x"), "y", "");
    assert_eq!(new_content, "");
    assert!(!changed);
}

#[test]
fn replace_the_empty_match() {
    let (new_content, changed) = replace(&plain("x*"), "-", "ab");
    assert_eq!(new_content, "-a-b-");
    assert!(changed);
}

#[test]
fn replace_puts_the_match_into_its_frame() {
    let (new_content, changed) = replace(&plain("o+"), "[$0]", "foo boo");
    assert_eq!(new_content, "f[oo] b[oo]");
    assert!(changed);
    let (new_content, _) = replace(&plain("o+"), "$0", "foo");
    assert_eq!(new_content, "foo");
    let (new_content, _) = replace(&plain("o+"), "<$0{", "foo");
    assert_eq!(new_content, "f<oo{");
}

#[test]
fn replace_reads_on_where_a_name_goes_on() {
    let (new_content, changed) = replace(&plain("o+"), "$0_", "foo");
    assert_eq!(new_content, "f");
    assert!(changed);
    let (new_content, _) = replace(&plain("o+"), "$0a", "foo");
    assert_eq!(new_content, "f");
    let (new_content, _) = replace(&plain("o+"), "$01", "foo");
    assert_eq!(new_content, "f");
}
