use ned::parameters::{get_parameters, part_pattern, ParameterError, RawOptions};
use ned::pattern::{with_flags, PatternFlags, PatternSpec};

fn raw() -> RawOptions {
    RawOptions {
        pattern: None,
        replace: None,
        group: None,
        includes: Vec::new(),
        excludes: Vec::new(),
        exclude_dirs: Vec::new(),
        free: Vec::new(),
        whole_files: false,
        ignore_case: false,
        single: false,
        multiline: false,
        extended: false,
        matches_only: false,
        no_match: false,
        filenames_only: false,
        no_filenames: false,
        recursive: false,
        follow: false,
        ignore_non_utf8: false,
        all: false,
        colors: false,
        stdout: false,
        quiet: false,
        version: false,
        help: false,
    }
}

fn strings(words: &[&str]) -> Vec<String> {
    words.iter().map(|w| w.to_string()).collect()
}

#[test]
fn the_pattern_is_the_first_free_argument() {
    let mut r = raw();
    r.free = strings(&["fo+", "a.txt", "dir"]);
    let p = get_parameters(r).unwrap();
    assert_eq!(p.regex.unwrap().source(), "fo+");
    assert_eq!(p.roots, strings(&["a.txt", "dir"]));
    assert!(!p.stdin);
}

#[test]
fn the_pattern_option_leaves_the_free_arguments_alone() {
    let mut r = raw();
    r.pattern = Some("fo+".to_string());
    r.free = strings(&["a.txt"]);
    let p = get_parameters(r).unwrap();
    assert_eq!(p.regex.unwrap().source(), "fo+");
    assert_eq!(p.roots, strings(&["a.txt"]));
}

#[test]
fn without_files_the_standard_input_is_read() {
    let mut r = raw();
    r.free = strings(&["fo+"]);
    let p = get_parameters(r).unwrap();
    assert!(p.stdin);
    assert!(p.roots.is_empty());
}

#[test]
fn without_a_pattern_there_is_none() {
    let mut r = raw();
    r.help = true;
    let p = get_parameters(r).unwrap();
    assert!(p.regex.is_none());
    assert!(p.help);
    assert!(p.stdin);
}

#[test]
fn flags_go_in_front_of_the_pattern() {
    let mut r = raw();
    r.free = strings(&["a.b"]);
    r.ignore_case = true;
    r.single = true;
    r.multiline = true;
    r.extended = true;
    let p = get_parameters(r).unwrap();
    assert_eq!(p.regex.unwrap().source(), "(?ismx)a.b");
}

#[test]
fn flags_take_effect() {
    let flags = PatternFlags {
        ignore_case: true,
        dot_matches_newline: false,
        multiline: false,
        extended: false,
    };
    assert_eq!(with_flags("Foo", &flags), "(?i)Foo");
    let pattern = PatternSpec::new("Foo", &flags).unwrap();
    let (new_content, changed) = ned::replace::replace(&pattern, "-", "foo FOO fOo");
    assert_eq!(new_content, "- - -");
    assert!(changed);
}

#[test]
fn no_flags_no_prefix() {
    let flags = PatternFlags {
        ignore_case: false,
        dot_matches_newline: false,
        multiline: false,
        extended: false,
    };
    assert_eq!(with_flags("Foo", &flags), "Foo");
    let flags = PatternFlags {
        ignore_case: false,
        dot_matches_newline: true,
        multiline: false,
        extended: true,
    };
    assert_eq!(with_flags("", &flags), "(?sx)");
}

#[test]
fn everything_is_carried_over() {
    let mut r = raw();
    r.free = strings(&["x"]);
    r.replace = Some("y".to_string());
    r.group = Some("1".to_string());
    r.includes = strings(&["*.a", "*.b"]);
    r.excludes = strings(&["*.c"]);
    r.exclude_dirs = strings(&[".git"]);
    r.whole_files = true;
    r.matches_only = true;
    r.no_match = true;
    r.filenames_only = true;
    r.no_filenames = true;
    r.recursive = true;
    r.follow = true;
    r.ignore_non_utf8 = true;
    r.all = true;
    r.colors = true;
    r.stdout = true;
    r.quiet = true;
    r.version = true;
    let p = get_parameters(r).unwrap();
    assert_eq!(p.replace, Some("y".to_string()));
    assert_eq!(p.mode.group, Some("1".to_string()));
    assert!(p.mode.whole_files && p.mode.only_matches && p.mode.no_match);
    assert!(p.mode.filenames_only && p.mode.no_filenames && p.mode.colors);
    assert!(p.mode.stdout && p.mode.quiet && p.mode.ignore_non_utf8);
    assert!(p.selection.recursive && p.selection.follow_symlinks && p.selection.show_hidden);
    let sources = |globs: &Vec<ned::select::GlobPattern>| -> Vec<String> {
        globs.iter().map(|g| g.source().to_string()).collect()
    };
    assert_eq!(sources(&p.selection.include_globs), strings(&["*.a", "*.b"]));
    assert_eq!(sources(&p.selection.exclude_globs), strings(&["*.c"]));
    assert_eq!(sources(&p.selection.exclude_dir_globs), strings(&[".git"]));
    assert!(p.version && !p.help);
}

#[test]
fn a_pattern_that_does_not_compile() {
    let mut r = raw();
    r.free = strings(&["fo(o", "a.txt"]);
    match get_parameters(r) {
        Err(ParameterError::Pattern(e)) => assert!(!e.message.is_empty()),
        _ => panic!("the pattern should have been refused"),
    }
}

#[test]
fn a_glob_that_does_not_compile() {
    let mut r = raw();
    r.free = strings(&["foo"]);
    r.excludes = strings(&["ok", "a["]);
    match get_parameters(r) {
        Err(ParameterError::Glob(e)) => assert!(!e.message.is_empty()),
        _ => panic!("the glob should have been refused"),
    }
}

#[test]
fn a_bad_glob_is_reported_before_a_bad_pattern() {
    let mut r = raw();
    r.free = strings(&["fo(o"]);
    r.exclude_dirs = strings(&["a["]);
    assert!(matches!(get_parameters(r), Err(ParameterError::Glob(_))));
}

#[test]
fn parting_the_pattern_from_the_files() {
    let (pattern, roots) = part_pattern(None, strings(&["a", "b", "c"]));
    assert_eq!(pattern, Some("a".to_string()));
    assert_eq!(roots, strings(&["b", "c"]));
    let (pattern, roots) = part_pattern(Some("p".to_string()), strings(&["a", "b"]));
    assert_eq!(pattern, Some("p".to_string()));
    assert_eq!(roots, strings(&["a", "b"]));
    let (pattern, roots) = part_pattern(None, Vec::new());
    assert_eq!(pattern, None);
    assert!(roots.is_empty());
}

#[test]
fn outcome_of_a_compilation() {
    let flags = PatternFlags {
        ignore_case: false,
        dot_matches_newline: false,
        multiline: false,
        extended: false,
    };
    let good = PatternSpec::new("a+", &flags).unwrap();
    assert_eq!(ned::pattern::compiled(Ok(good)).unwrap().source(), "a+");
    let refused = regex::Regex::new("a(").unwrap_err();
    let text = refused.to_string();
    match ned::pattern::compiled(Err(refused)) {
        Err(e) => assert_eq!(e.message, text),
        Ok(_) => panic!("an error should stay an error"),
    }
}
