use ned::config::ModeConfig;
use ned::file::{process_file, NedError, Parameters, Source};
use ned::pattern::{PatternFlags, PatternSpec};
use ned::select::FileSelectionCriteria;

fn no_flags() -> PatternFlags {
    PatternFlags { ignore_case: false, dot_matches_newline: false, multiline: false, extended: false }
}

fn parameters(pattern: &str, mode: ModeConfig) -> Parameters {
    Parameters {
        regex: Some(PatternSpec::new(pattern, &no_flags()).unwrap()),
        replace: None,
        mode,
        selection: FileSelectionCriteria::new(),
        stdin: false,
        roots: Vec::new(),
        version: false,
        help: false,
    }
}

const CONTENT: &str = "foo\nbar\nfoo\n";

#[test]
fn default_mode_emits_each_matching_line() {
    let p = parameters("foo", ModeConfig::new());
    let outcome = process_file(&p, None, Source::Stdin, CONTENT.as_bytes()).unwrap();
    assert!(outcome.found);
    assert_eq!(outcome.output, b"foo\nfoo\n".to_vec());
    assert!(outcome.rewrite.is_none());
}

#[test]
fn only_matches_emits_the_spans() {
    let mut mode = ModeConfig::new();
    mode.only_matches = true;
    let p = parameters("o+", mode);
    let outcome = process_file(&p, None, Source::Stdin, CONTENT.as_bytes()).unwrap();
    assert!(outcome.found);
    assert_eq!(outcome.output, b"oo\noo\n".to_vec());
}

#[test]
fn no_match_emits_the_other_lines() {
    let mut mode = ModeConfig::new();
    mode.no_match = true;
    let p = parameters("foo", mode);
    let outcome = process_file(&p, None, Source::Stdin, CONTENT.as_bytes()).unwrap();
    assert_eq!(outcome.output, b"bar\n".to_vec());
    assert!(outcome.found);
}

#[test]
fn quiet_without_a_match_is_silent() {
    let mut mode = ModeConfig::new();
    mode.quiet = true;
    let p = parameters("zzz", mode);
    let outcome = process_file(&p, Some("a.txt"), Source::File, CONTENT.as_bytes()).unwrap();
    assert!(!outcome.found);
    assert!(outcome.output.is_empty());
    assert!(outcome.rewrite.is_none());
}

#[test]
fn bytes_that_are_no_text_are_an_error() {
    let p = parameters("foo", ModeConfig::new());
    let r = process_file(&p, Some("a.bin"), Source::File, &[0xff, 0xfe, 0x00]);
    assert!(matches!(r, Err(NedError::NonUtf8)));
}
