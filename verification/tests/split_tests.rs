use ned::split::split;

fn parts(content: &str, whole_file: bool) -> Vec<(String, usize, usize, bool)> {
    split(content, whole_file)
        .iter()
        .map(|u| (u.text.to_string(), u.start, u.end, u.newline))
        .collect()
}

fn rejoin(content: &str, whole_file: bool) -> String {
    let mut joined = String::new();
    for unit in split(content, whole_file) {
        joined.push_str(unit.text);
        if unit.newline && !whole_file {
            joined.push('\n');
        }
    }
    joined
}

#[test]
fn lines_with_a_newline_at_the_end() {
    assert_eq!(
        parts("foo\nbar\nfoo\n", false),
        vec![
            ("foo".to_string(), 0, 3, true),
            ("bar".to_string(), 4, 7, true),
            ("foo".to_string(), 8, 11, true),
        ]
    );
}

#[test]
fn last_line_without_a_newline() {
    assert_eq!(
        parts("a\nbc", false),
        vec![("a".to_string(), 0, 1, true), ("bc".to_string(), 2, 4, false)]
    );
}

#[test]
fn empty_content_has_no_line() {
    assert!(parts("", false).is_empty());
}

#[test]
fn a_single_newline_is_one_empty_line() {
    assert_eq!(parts("\n", false), vec![("".to_string(), 0, 0, true)]);
}

#[test]
fn empty_lines_are_kept() {
    assert_eq!(
        parts("a\n\nb\n", false),
        vec![
            ("a".to_string(), 0, 1, true),
            ("".to_string(), 2, 2, true),
            ("b".to_string(), 3, 4, true),
        ]
    );
}

#[test]
fn only_the_line_feed_ends_a_line() {
    assert_eq!(
        parts("a\r\nb", false),
        vec![("a\r".to_string(), 0, 2, true), ("b".to_string(), 3, 4, false)]
    );
}

#[test]
fn lines_of_characters_of_several_bytes() {
    assert_eq!(
        parts("\u{e9}t\u{e9}\n\u{65e5}\u{672c}", false),
        vec![
            ("\u{e9}t\u{e9}".to_string(), 0, 5, true),
            ("\u{65e5}\u{672c}".to_string(), 6, 12, false),
        ]
    );
}

#[test]
fn whole_file_is_one_unit() {
    assert_eq!(parts("a\nb\n", true), vec![("a\nb\n".to_string(), 0, 4, true)]);
    assert_eq!(parts("a\nb", true), vec![("a\nb".to_string(), 0, 3, false)]);
}

#[test]
fn whole_file_of_empty_content_is_one_empty_unit() {
    assert_eq!(parts("", true), vec![("".to_string(), 0, 0, false)]);
}

#[test]
fn units_rejoin_to_the_content() {
    for content in ["", "\n", "a", "a\n", "a\nb", "a\n\n\nb\n", "\n\na", "x\r\ny\r\n"] {
        assert_eq!(rejoin(content, true), content);
        assert_eq!(rejoin(content, false), content);
    }
}
