use ned::config::ModeConfig;
use ned::file::{process_content, process_file, NedError, Parameters, Source};
use ned::pattern::{PatternFlags, PatternSpec};
use ned::select::FileSelectionCriteria;

fn flags() -> PatternFlags {
    PatternFlags { ignore_case: false, dot_matches_newline: false, multiline: false, extended: false }
}

fn run(pattern: &str, replace: Option<&str>, mode: ModeConfig) -> Parameters {
    Parameters {
        regex: Some(PatternSpec::new(pattern, &flags()).unwrap()),
        replace: replace.map(|r| r.to_string()),
        mode,
        selection: FileSelectionCriteria::new(),
        stdin: false,
        roots: Vec::new(),
        version: false,
        help: false,
    }
}

#[test]
fn lines_get_the_file_name_each() {
    let p = run("foo", None, ModeConfig::new());
    let outcome = process_file(&p, Some("a.txt"), Source::File, b"foo\nbar\nfoo").unwrap();
    assert!(outcome.found);
    assert_eq!(outcome.output, b"a.txt: foo\na.txt: foo\n".to_vec());
    assert!(outcome.rewrite.is_none());
}

#[test]
fn a_pattern_is_held_against_each_line() {
    let p = run("^bar$", None, ModeConfig::new());
    let outcome = process_file(&p, None, Source::Stdin, b"foo\nbar\nfoo\n").unwrap();
    assert!(outcome.found);
    assert_eq!(outcome.output, b"bar\n".to_vec());
}

#[test]
fn a_carriage_return_stays_in_its_line() {
    let p = run("foo", None, ModeConfig::new());
    let outcome = process_file(&p, None, Source::Stdin, b"foo\r\nbar\r\n").unwrap();
    assert_eq!(outcome.output, b"foo\r\n".to_vec());
}

#[test]
fn whole_file_is_matched_at_once() {
    let mut mode = ModeConfig::new();
    mode.whole_files = true;
    let p = Parameters {
        regex: Some(
            PatternSpec::new(
                "foo.bar",
                &PatternFlags {
                    ignore_case: false,
                    dot_matches_newline: true,
                    multiline: false,
                    extended: false,
                },
            )
            .unwrap(),
        ),
        ..run("x", None, mode)
    };
    let outcome = process_file(&p, Some("a"), Source::File, b"foo\nbar\n").unwrap();
    assert!(outcome.found);
    assert_eq!(outcome.output, b"a:\nfoo\nbar\n".to_vec());
}

#[test]
fn whole_file_without_a_newline_at_its_end_gets_one() {
    let mut mode = ModeConfig::new();
    mode.whole_files = true;
    let p = run("b", None, mode);
    let outcome = process_file(&p, None, Source::Stdin, b"a\nb").unwrap();
    assert_eq!(outcome.output, b"a\nb\n".to_vec());
}

#[test]
fn empty_content_matches_nothing() {
    let p = run("x*", None, ModeConfig::new());
    let outcome = process_file(&p, Some("a"), Source::File, b"").unwrap();
    assert!(!outcome.found);
    assert!(outcome.output.is_empty());
}

#[test]
fn replace_rewrites_a_file() {
    let p = run("foo", Some("X"), ModeConfig::new());
    let outcome = process_file(&p, Some("a.txt"), Source::File, b"a foo b\nfoo\n").unwrap();
    assert!(outcome.found);
    assert!(outcome.output.is_empty());
    assert_eq!(outcome.rewrite, Some("a X b\nX\n".to_string()));
}

#[test]
fn replace_takes_the_content_as_a_whole() {
    let p = run("o\nb", Some("-"), ModeConfig::new());
    let outcome = process_file(&p, Some("a.txt"), Source::File, b"foo\nbar\n").unwrap();
    assert_eq!(outcome.rewrite, Some("fo-ar\n".to_string()));
}

#[test]
fn replace_cannot_rewrite_the_standard_input() {
    let p = run("foo", Some("X"), ModeConfig::new());
    let outcome = process_file(&p, None, Source::Stdin, b"a foo b\n").unwrap();
    assert!(outcome.found);
    assert!(outcome.output.is_empty());
    assert!(outcome.rewrite.is_none());
}

#[test]
fn replace_to_the_output() {
    let mut mode = ModeConfig::new();
    mode.stdout = true;
    let p = run("foo", Some("X"), mode);
    let outcome = process_file(&p, Some("a.txt"), Source::File, b"a foo b\n").unwrap();
    assert!(outcome.found);
    assert_eq!(outcome.output, b"a.txt: a X b\n".to_vec());
    assert!(outcome.rewrite.is_none());
}

#[test]
fn replace_to_the_output_when_quiet() {
    let mut mode = ModeConfig::new();
    mode.stdout = true;
    mode.quiet = true;
    let p = run("foo", Some("X"), mode);
    let outcome = process_file(&p, Some("a.txt"), Source::File, b"a foo b\n").unwrap();
    assert!(outcome.found);
    assert!(outcome.output.is_empty());
    assert!(outcome.rewrite.is_none());
}

#[test]
fn replace_in_colour_highlights_what_is_put_in() {
    let mut mode = ModeConfig::new();
    mode.stdout = true;
    mode.colors = true;
    mode.no_filenames = true;
    let p = run("foo", Some("X"), mode);
    let outcome = process_file(&p, Some("a.txt"), Source::File, b"a foo b\n").unwrap();
    assert_eq!(outcome.output, b"a \x1b[1;31mX\x1b[0m b\n".to_vec());
}

#[test]
fn replace_by_the_same_text_counts_as_nothing_found() {
    let p = run("foo", Some("foo"), ModeConfig::new());
    let outcome = process_file(&p, Some("a.txt"), Source::File, b"a foo b\n").unwrap();
    assert!(!outcome.found);
    assert_eq!(outcome.rewrite, Some("a foo b\n".to_string()));
}

#[test]
fn replace_comes_before_every_mode() {
    let mut mode = ModeConfig::new();
    mode.group = Some("0".to_string());
    mode.no_match = true;
    mode.filenames_only = true;
    let p = run("foo", Some("X"), mode);
    let outcome = process_file(&p, Some("a.txt"), Source::File, b"foo\n").unwrap();
    assert!(outcome.output.is_empty());
    assert_eq!(outcome.rewrite, Some("X\n".to_string()));
}

#[test]
fn filenames_only_names_a_file_with_a_match_once() {
    let mut mode = ModeConfig::new();
    mode.filenames_only = true;
    let p = run("foo", None, mode);
    let outcome = process_file(&p, Some("a.txt"), Source::File, b"foo\nfoo\n").unwrap();
    assert!(outcome.found);
    assert_eq!(outcome.output, b"a.txt\n".to_vec());
}

#[test]
fn filenames_only_passes_over_a_file_without_a_match() {
    let mut mode = ModeConfig::new();
    mode.filenames_only = true;
    let p = run("zzz", None, mode);
    let outcome = process_file(&p, Some("a.txt"), Source::File, b"foo\n").unwrap();
    assert!(!outcome.found);
    assert!(outcome.output.is_empty());
}

#[test]
fn filenames_only_with_no_match_names_the_files_without_a_match() {
    let mut mode = ModeConfig::new();
    mode.filenames_only = true;
    mode.no_match = true;
    let p = run("zzz", None, mode);
    let outcome = process_file(&p, Some("a.txt"), Source::File, b"foo\n").unwrap();
    assert!(!outcome.found);
    assert_eq!(outcome.output, b"a.txt\n".to_vec());
    let mut mode = ModeConfig::new();
    mode.filenames_only = true;
    mode.no_match = true;
    let p = run("foo", None, mode);
    let outcome = process_file(&p, Some("a.txt"), Source::File, b"foo\n").unwrap();
    assert!(outcome.found);
    assert!(outcome.output.is_empty());
}

#[test]
fn quiet_tests_the_content_as_a_whole() {
    let mut mode = ModeConfig::new();
    mode.quiet = true;
    let p = run("o\nb", None, mode);
    let outcome = process_file(&p, Some("a.txt"), Source::File, b"foo\nbar\n").unwrap();
    assert!(outcome.found);
    assert!(outcome.output.is_empty());
}

#[test]
fn group_mode_goes_line_by_line() {
    let mut mode = ModeConfig::new();
    mode.group = Some("1".to_string());
    mode.quiet = true;
    let p = run("(\\d+)", None, mode);
    let outcome = process_file(&p, None, Source::Stdin, b"a 12\nb\nc 345\n").unwrap();
    assert!(outcome.found);
    assert_eq!(outcome.output, b"12\n345\n".to_vec());
}

#[test]
fn bytes_that_are_no_text_are_passed_over_on_request() {
    let mut mode = ModeConfig::new();
    mode.ignore_non_utf8 = true;
    let p = run("foo", None, mode);
    let outcome = process_file(&p, Some("a.bin"), Source::File, b"foo \xff foo").unwrap();
    assert!(!outcome.found);
    assert!(outcome.output.is_empty());
    assert!(outcome.rewrite.is_none());
}

#[test]
fn bytes_that_are_no_text_fail_otherwise() {
    let p = run("foo", None, ModeConfig::new());
    let r = process_file(&p, Some("a.bin"), Source::File, b"foo \xc3");
    assert!(matches!(r, Err(NedError::NonUtf8)));
}

#[test]
fn text_without_a_pattern_fails() {
    let mut p = run("foo", None, ModeConfig::new());
    p.regex = None;
    let r = process_file(&p, Some("a.txt"), Source::File, b"foo");
    assert!(matches!(r, Err(NedError::MissingPattern)));
}

#[test]
fn content_that_is_text_needs_no_decoding() {
    let pattern = PatternSpec::new("b+", &flags()).unwrap();
    let outcome =
        process_content(&ModeConfig::new(), &pattern, Some("c"), Some("f"), Source::File, "abba");
    assert!(outcome.found);
    assert_eq!(outcome.rewrite, Some("aca".to_string()));
}

#[test]
fn a_group_with_file_names_only_is_decided_unit_by_unit() {
    let mut mode = ModeConfig::new();
    mode.group = Some("0".to_string());
    mode.filenames_only = true;
    let p = run("o+", None, mode);
    let outcome = process_file(&p, Some("a"), Source::File, b"foo\nbar\n").unwrap();
    assert!(outcome.found);
    assert_eq!(outcome.output, b"a\noo\n".to_vec());
}

#[test]
fn inversion_without_file_names_only_is_decided_unit_by_unit() {
    let mut mode = ModeConfig::new();
    mode.no_match = true;
    mode.quiet = true;
    let p = run("foo", None, mode);
    let outcome = process_file(&p, Some("a"), Source::File, b"foo\nbar\n").unwrap();
    assert!(outcome.found);
    assert_eq!(outcome.output, b"a: bar\n".to_vec());
}
