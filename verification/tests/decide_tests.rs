use ned::config::{Mode, ModeConfig};
use ned::decide::{decide, process_text};
use ned::pattern::{PatternFlags, PatternSpec};

fn plain(pattern: &str) -> PatternSpec {
    let flags = PatternFlags {
        ignore_case: false,
        dot_matches_newline: false,
        multiline: false,
        extended: false,
    };
    PatternSpec::new(pattern, &flags).unwrap()
}

fn group(designator: &str) -> ModeConfig {
    let mut config = ModeConfig::new();
    config.group = Some(designator.to_string());
    config
}

#[test]
fn default_mode_emits_the_unit() {
    let outcome = decide(&ModeConfig::new(), &plain("foo"), Some("f.txt"), "a foo b");
    assert!(outcome.matched);
    assert_eq!(outcome.emitted, b"f.txt: a foo b\n".to_vec());
}

#[test]
fn default_mode_skips_what_does_not_match() {
    let outcome = decide(&ModeConfig::new(), &plain("foo"), Some("f.txt"), "a bar b");
    assert!(!outcome.matched);
    assert!(outcome.emitted.is_empty());
}

#[test]
fn default_mode_in_colour() {
    let mut config = ModeConfig::new();
    config.colors = true;
    let outcome = decide(&config, &plain("foo"), Some("f.txt"), "a foo b");
    assert_eq!(
        outcome.emitted,
        b"\x1b[35mf.txt\x1b[0m: a \x1b[1;31mfoo\x1b[0m b\n".to_vec()
    );
}

#[test]
fn whole_file_unit_keeps_its_newline() {
    let mut config = ModeConfig::new();
    config.whole_files = true;
    let outcome = decide(&config, &plain("two"), Some("f.txt"), "one\ntwo\n");
    assert_eq!(outcome.emitted, b"f.txt:\none\ntwo\n".to_vec());
}

#[test]
fn only_matches_writes_the_header_once() {
    let mut config = ModeConfig::new();
    config.only_matches = true;
    let outcome = decide(&config, &plain("o+"), Some("f.txt"), "foo boo");
    assert!(outcome.matched);
    assert_eq!(outcome.emitted, b"f.txt: oo\noo\n".to_vec());
}

#[test]
fn only_matches_in_colour() {
    let mut config = ModeConfig::new();
    config.only_matches = true;
    config.colors = true;
    config.no_filenames = true;
    let outcome = decide(&config, &plain("o+"), Some("f.txt"), "foo");
    assert_eq!(outcome.emitted, b"\x1b[1;31moo\x1b[0m\n".to_vec());
}

#[test]
fn only_matches_with_text_of_several_bytes_a_character() {
    let mut config = ModeConfig::new();
    config.only_matches = true;
    let outcome = decide(&config, &plain("\u{3b2}+"), None, "\u{3b1}\u{3b2}\u{3b2}\u{3b3}");
    assert_eq!(outcome.emitted, "\u{3b2}\u{3b2}\n".as_bytes().to_vec());
}

#[test]
fn only_matches_without_a_match() {
    let mut config = ModeConfig::new();
    config.only_matches = true;
    let outcome = decide(&config, &plain("z"), Some("f.txt"), "foo");
    assert!(!outcome.matched);
    assert!(outcome.emitted.is_empty());
}

#[test]
fn group_by_index() {
    let outcome = decide(&group("1"), &plain("(a+)(b+)?"), None, "xaab");
    assert!(outcome.matched);
    assert_eq!(outcome.emitted, b"aa\n".to_vec());
}

#[test]
fn group_zero_is_the_match() {
    let outcome = decide(&group(" 0 "), &plain("a+b"), Some("f"), "xaab!");
    assert_eq!(outcome.emitted, b"f: aab\n".to_vec());
}

#[test]
fn group_that_took_no_part_still_counts() {
    let outcome = decide(&group("2"), &plain("(a+)(b+)?"), None, "xaa");
    assert!(outcome.matched);
    assert!(outcome.emitted.is_empty());
}

#[test]
fn group_beyond_those_of_the_pattern() {
    let outcome = decide(&group("7"), &plain("(a+)"), None, "xaa");
    assert!(outcome.matched);
    assert!(outcome.emitted.is_empty());
}

#[test]
fn group_by_name() {
    let outcome = decide(&group("user"), &plain("(?P<user>\\w+)@"), None, "to joe@example");
    assert!(outcome.matched);
    assert_eq!(outcome.emitted, b"joe\n".to_vec());
}

#[test]
fn group_by_a_name_that_is_unknown() {
    let outcome = decide(&group("host"), &plain("(?P<user>\\w+)@"), None, "to joe@example");
    assert!(outcome.matched);
    assert!(outcome.emitted.is_empty());
}

#[test]
fn group_without_a_match() {
    let outcome = decide(&group("1"), &plain("(a+)"), Some("f"), "xyz");
    assert!(!outcome.matched);
    assert!(outcome.emitted.is_empty());
}

#[test]
fn group_in_colour_highlights_matches_in_the_captured_text() {
    let mut config = group("0");
    config.colors = true;
    let outcome = decide(&config, &plain("o+"), None, "foo");
    assert_eq!(outcome.emitted, b"\x1b[1;31moo\x1b[0m\n".to_vec());
}

#[test]
fn inverted_match_emits_the_unit_as_it_is() {
    let mut config = ModeConfig::new();
    config.no_match = true;
    config.colors = true;
    config.no_filenames = true;
    let outcome = decide(&config, &plain("foo"), Some("f"), "bar");
    assert!(outcome.matched);
    assert_eq!(outcome.emitted, b"bar\n".to_vec());
}

#[test]
fn inverted_match_passes_over_a_match() {
    let mut config = ModeConfig::new();
    config.no_match = true;
    let outcome = decide(&config, &plain("foo"), Some("f"), "a foo");
    assert!(!outcome.matched);
    assert!(outcome.emitted.is_empty());
}

#[test]
fn filenames_only_writes_nothing_for_a_unit() {
    let mut config = ModeConfig::new();
    config.filenames_only = true;
    let outcome = decide(&config, &plain("foo"), Some("f"), "a foo");
    assert!(outcome.matched);
    assert!(outcome.emitted.is_empty());
}

#[test]
fn quiet_writes_nothing_for_a_unit() {
    let mut config = ModeConfig::new();
    config.quiet = true;
    let outcome = decide(&config, &plain("foo"), Some("f"), "a foo");
    assert!(outcome.matched);
    assert!(outcome.emitted.is_empty());
}

#[test]
fn process_text_appends_to_the_output() {
    let mut out = b"earlier\n".to_vec();
    let found = process_text(&ModeConfig::new(), &plain("b"), None, &mut out, "abc");
    assert!(found);
    assert_eq!(out, b"earlier\nabc\n".to_vec());
}

#[test]
fn modes_in_their_order() {
    let mut config = ModeConfig::new();
    assert_eq!(config.mode(), Mode::Default { only_matches: false });
    config.only_matches = true;
    assert_eq!(config.mode(), Mode::Default { only_matches: true });
    config.quiet = true;
    assert_eq!(config.mode(), Mode::QuietExistenceOnly);
    config.filenames_only = true;
    assert_eq!(config.mode(), Mode::FilenamesOnly);
    config.no_match = true;
    assert_eq!(config.mode(), Mode::Invert);
    config.filenames_only = false;
    assert_eq!(config.mode(), Mode::Invert);
    config.group = Some("1".to_string());
    assert_eq!(config.mode(), Mode::GroupExtract);
}

#[test]
fn inverted_match_whatever_the_other_flags() {
    let mut config = ModeConfig::new();
    config.no_match = true;
    config.filenames_only = true;
    config.quiet = true;
    config.only_matches = true;
    let outcome = decide(&config, &plain("foo"), None, "bar");
    assert!(outcome.matched);
    assert_eq!(outcome.emitted, b"bar\n".to_vec());
    let outcome = decide(&config, &plain("foo"), None, "a foo");
    assert!(!outcome.matched);
    assert!(outcome.emitted.is_empty());
}

#[test]
fn naming_files_is_for_a_run_without_a_group() {
    let mut config = ModeConfig::new();
    assert!(!config.names_files());
    config.filenames_only = true;
    assert!(config.names_files());
    config.no_match = true;
    assert!(config.names_files());
    config.group = Some("1".to_string());
    assert!(!config.names_files());
}
