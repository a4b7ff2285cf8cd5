//! The program's name, the options that it takes and the texts that it
//! prints about itself.

use vstd::prelude::*;
use vstd::string::*;

verus! {

/// The name under which the program speaks of itself.
pub const PROGRAM: &'static str = "ned";

/// The version that the program reports.
pub const VERSION: &'static str = "1.0.0";

/// The shape of a command line.
pub const OPTS_AND_ARGS: &'static str = "[OPTION]... [-p] <PATTERN> [FILE]...";

/// What the usage says before it lists the options.
pub const PRE_DESCRIPTION: &'static str =
    "ned is a bit like grep and a bit like sed. But unlike grep you don't have to
choose which grep to use depending the regex features you want, and unlike
sed it can operate on whole files, so you're not restricted in how you can
edit files.

FILEs are ASCII or UTF-8 text files. For regex syntax see:

  http://rust-lang-nursery.github.io/regex/regex/#syntax";

/// What the usage says after the options.
pub const POST_DESCRIPTION: &'static str =
    "Environment:
    NED_DEFAULTS        ned options prepended to the program's arguments. is
                        a space delimited list of options and is not first
                        interpreted by a shell, so quotes are not required.
                        for example...

                        NED_DEFAULTS=\"-u -c --exclude *.bk --exclude-dir .git\"
Exit codes:
    0                   matches found/replaced
    1                   no matches

Quiet:
    When -q --quiet is  specified ned tests for matches and returns an exit
    code of 0 if a match is found in ANY file. Quiet matches will only read
    as many files as needed to find a match. Even without this shortcutting
    behaviour quiet matches are more performant than non-quiet matches.";

/// The copyright line.
pub const COPYRIGHT: &'static str =
    "Copyright (C) 2016 Nev Delap - https://github.com/nevdelap/ned";

/// The licence.
pub const LICENSE: &'static str =
    "License GPLv3+: GNU GPL version 3 or later <http://gnu.org/licenses/gpl.html>.
This is free software: you are free to change and redistribute it.
There is NO WARRANTY, to the extent permitted by law.";

pub const PATTERN_HELP: &'static str =
    "specify pattern. if the option isn't used the pattern must precede the \
     files. the option allows the pattern to be put after the files for more \
     convenient editing";

pub const REPLACE_HELP: &'static str =
    "replace matches, may include named groups. replaces always operate on \
     whole files";

pub const WHOLE_FILES_HELP: &'static str =
    "operate on whole files. otherwise matches are line oriented";

pub const NUMBER_HELP: &'static str = "match/replace N occurrences";

pub const SKIP_HELP: &'static str = "skip N occurrences before matching/replacing";

pub const BACKWARDS_HELP: &'static str = "-n --number and -k --skip options count backwards";

pub const IGNORE_CASE_HELP: &'static str = "ignore case";

pub const SINGLE_HELP: &'static str =
    ". matches newlines, ^ and $ match beginning and end of each file. use \
     with --whole-files";

pub const MULTILINE_HELP: &'static str =
    "multiline, ^ and $ match beginning and end of each line. use with \
     --whole-files";

pub const EXTENDED_HELP: &'static str = "ignore whitespace and # comments";

pub const MATCHES_ONLY_HELP: &'static str = "show only matches";

pub const GROUP_HELP: &'static str = "show the match group, specified by number or name";

pub const NO_MATCH_HELP: &'static str = "show only non-matching";

pub const FILENAMES_ONLY_HELP: &'static str =
    "show only filenames containing matches. use with -v --no-match to show \
     filenames without matches";

pub const NO_FILENAMES_HELP: &'static str = "don't show filesnames";

pub const CONTEXT_HELP: &'static str =
    "(not yet implemented) show LINES lines around each match. is the same as \
     specifying both -B --before and -A --after with the same LINES. use \
     without -w --whole-files";

pub const BEFORE_HELP: &'static str =
    "(not yet implemented) show LINES lines before each match. use without -w \
     --whole-files";

pub const AFTER_HELP: &'static str =
    "(not yet implemented) show LINES lines after each match. use without -w \
     --whole-files";

pub const RECURSIVE_HELP: &'static str = "recurse";

pub const FOLLOW_HELP: &'static str = "follow symlinks";

pub const INCLUDE_HELP: &'static str = "match only files that match GLOB";

pub const EXCLUDE_HELP: &'static str = "skip files matching GLOB";

pub const EXCLUDE_DIR_HELP: &'static str = "skip directories matching GLOB";

pub const IGNORE_NON_UTF8_HELP: &'static str =
    "quietly ignore files that cannot be parsed as UTF-8 (or ASCII). because \
     this requires reading the file the --exclude option should be preferred";

pub const ALL_HELP: &'static str = "do not ignore entries starting with .";

pub const COLORS_HELP: &'static str = "show filenames and matches in color";

pub const STDOUT_HELP: &'static str = "output to stdout";

pub const QUIET_HELP: &'static str = "suppress all normal output";

pub const VERSION_HELP: &'static str = "output version information and exit";

pub const HELP_HELP: &'static str = "print this help and exit";

/// The program's name, version and copyright on one line, a blank line, then
/// the licence.
pub open spec fn version_text() -> Seq<char> {
    "\n"@ + PROGRAM@ + " "@ + VERSION@ + " "@ + COPYRIGHT@ + "\n\n"@ + LICENSE@ + "\n\n"@
}

/// The usage line and the paragraph that precedes the list of options.
pub open spec fn brief_text() -> Seq<char> {
    "Usage: "@ + PROGRAM@ + " "@ + OPTS_AND_ARGS@ + "\n\n"@ + PRE_DESCRIPTION@
}

/// The text that answers `--version`.
pub fn usage_version() -> (r: String)
    ensures
        r@ == version_text(),
{
    let mut s = String::from_str("\n");
    s.append(PROGRAM);
    s.append(" ");
    s.append(VERSION);
    s.append(" ");
    s.append(COPYRIGHT);
    s.append("\n\n");
    s.append(LICENSE);
    s.append("\n\n");
    s
}

/// The text that the usage begins with.
pub fn usage_brief() -> (r: String)
    ensures
        r@ == brief_text(),
{
    let mut s = String::from_str("Usage: ");
    s.append(PROGRAM);
    s.append(" ");
    s.append(OPTS_AND_ARGS);
    s.append("\n\n");
    s.append(PRE_DESCRIPTION);
    s
}

#[verifier::external_type_specification]
#[verifier::external_body]
pub struct ExOptions(getopts::Options);

/// How an option is given on the command line.
pub enum OptionKind {
    /// With a value, at most once.
    Value,
    /// Without a value, any number of times.
    Flag,
    /// With a value, any number of times.
    Values,
}

/// An option as it is declared: its short name (one character, or none),
/// its long name (two characters or more, or none), what the usage says of
/// it, and what the usage shows in the place of its value.
pub struct OptionDecl {
    pub short: Seq<char>,
    pub long: Seq<char>,
    pub description: Seq<char>,
    pub hint: Seq<char>,
    pub kind: OptionKind,
}

/// The options that were declared in `opts`, in the order of their
/// declaration.
pub uninterp spec fn options_declared(opts: getopts::Options) -> Seq<OptionDecl>;

/// Whether `opts` takes long options behind a single `-`.
pub uninterp spec fn options_long_only(opts: getopts::Options) -> bool;

/// Whether `opts` lets options and free arguments stand in any order, so
/// that an option may follow a free argument.
pub uninterp spec fn options_mixed(opts: getopts::Options) -> bool;

/// The usage message for the options `declared`, behind `brief`.
pub uninterp spec fn usage_text(
    declared: Seq<OptionDecl>,
    long_only: bool,
    brief: Seq<char>,
) -> Seq<char>;

/// An option that takes a value and may be given once.
pub open spec fn value(
    short: Seq<char>,
    long: Seq<char>,
    description: Seq<char>,
    hint: Seq<char>,
) -> OptionDecl {
    OptionDecl { short, long, description, hint, kind: OptionKind::Value }
}

/// An option that takes no value and may be repeated. It has no hint.
pub open spec fn flag(short: Seq<char>, long: Seq<char>, description: Seq<char>) -> OptionDecl {
    OptionDecl { short, long, description, hint: Seq::<char>::empty(), kind: OptionKind::Flag }
}

/// An option that takes a value and may be repeated.
pub open spec fn values(
    short: Seq<char>,
    long: Seq<char>,
    description: Seq<char>,
    hint: Seq<char>,
) -> OptionDecl {
    OptionDecl { short, long, description, hint, kind: OptionKind::Values }
}

/// Names that the option parser takes: a short name of one byte or none,
/// a long name of two bytes or more or none.
pub open spec fn names_fit(short: Seq<u8>, long: Seq<u8>) -> bool {
    short.len() <= 1 && long.len() != 1
}

/// `Options::new`: no option is declared yet.
#[verifier::external_body]
fn new_options() -> (opts: getopts::Options)
    ensures
        options_declared(opts) == Seq::<OptionDecl>::empty(),
        !options_long_only(opts),
{
    getopts::Options::new()
}

/// `Options::parsing_style` with `FloatingFrees`: from then on options and
/// free arguments may be mixed. The declarations stay as they are.
#[verifier::external_body]
fn mix_freely(opts: &mut getopts::Options)
    ensures
        options_mixed(*final(opts)),
        options_declared(*final(opts)) == options_declared(*old(opts)),
        options_long_only(*final(opts)) == options_long_only(*old(opts)),
{
    opts.parsing_style(getopts::ParsingStyle::FloatingFrees);
}

/// `Options::optopt`: declares an option that takes a value and may be
/// given once.
#[verifier::external_body]
fn add_value(opts: &mut getopts::Options, short: &str, long: &str, description: &str, hint: &str)
    requires
        names_fit(short.spec_bytes(), long.spec_bytes()),
    ensures
        options_declared(*final(opts)) == options_declared(*old(opts)).push(
            value(short@, long@, description@, hint@),
        ),
        options_long_only(*final(opts)) == options_long_only(*old(opts)),
        options_mixed(*final(opts)) == options_mixed(*old(opts)),
{
    opts.optopt(short, long, description, hint);
}

/// `Options::optflagmulti`: declares an option that takes no value and may
/// be given any number of times.
#[verifier::external_body]
fn add_flag(opts: &mut getopts::Options, short: &str, long: &str, description: &str)
    requires
        names_fit(short.spec_bytes(), long.spec_bytes()),
    ensures
        options_declared(*final(opts)) == options_declared(*old(opts)).push(
            flag(short@, long@, description@),
        ),
        options_long_only(*final(opts)) == options_long_only(*old(opts)),
        options_mixed(*final(opts)) == options_mixed(*old(opts)),
{
    opts.optflagmulti(short, long, description);
}

/// `Options::optmulti`: declares an option that takes a value and may be
/// given any number of times.
#[verifier::external_body]
fn add_values(opts: &mut getopts::Options, short: &str, long: &str, description: &str, hint: &str)
    requires
        names_fit(short.spec_bytes(), long.spec_bytes()),
    ensures
        options_declared(*final(opts)) == options_declared(*old(opts)).push(
            values(short@, long@, description@, hint@),
        ),
        options_long_only(*final(opts)) == options_long_only(*old(opts)),
        options_mixed(*final(opts)) == options_mixed(*old(opts)),
{
    opts.optmulti(short, long, description, hint);
}

/// `Options::usage`: the usage message for the declared options, behind
/// `brief`.
#[verifier::external_body]
fn options_usage(opts: &getopts::Options, brief: &str) -> (r: String)
    ensures
        r@ == usage_text(options_declared(*opts), options_long_only(*opts), brief@),
{
    opts.usage(brief)
}

/// The options that say what to look for and what to put in its place.
pub open spec fn search_options() -> Seq<OptionDecl> {
    seq![
        value("p"@, "pattern"@, PATTERN_HELP@, "PATTERN"@),
        value("r"@, "replace"@, REPLACE_HELP@, "REPLACEMENT"@),
        flag("w"@, "whole-files"@, WHOLE_FILES_HELP@),
        value("n"@, "number"@, NUMBER_HELP@, "N"@),
        value("k"@, "skip"@, SKIP_HELP@, "N"@),
        flag("b"@, "backwards"@, BACKWARDS_HELP@),
    ]
}

/// The options that set the flags of the pattern.
pub open spec fn syntax_options() -> Seq<OptionDecl> {
    seq![
        flag("i"@, "ignore-case"@, IGNORE_CASE_HELP@),
        flag("s"@, "single"@, SINGLE_HELP@),
        flag("m"@, "multiline"@, MULTILINE_HELP@),
        flag("x"@, "extended"@, EXTENDED_HELP@),
    ]
}

/// The options that say what to show of a match.
pub open spec fn display_options() -> Seq<OptionDecl> {
    seq![
        flag("o"@, "matches-only"@, MATCHES_ONLY_HELP@),
        value("g"@, "group"@, GROUP_HELP@, "GROUP"@),
        flag("v"@, "no-match"@, NO_MATCH_HELP@),
        flag("f"@, "filenames-only"@, FILENAMES_ONLY_HELP@),
        flag("F"@, "no-filenames"@, NO_FILENAMES_HELP@),
        value("C"@, "context"@, CONTEXT_HELP@, "LINES"@),
        value("B"@, "before"@, BEFORE_HELP@, "LINES"@),
        value("A"@, "after"@, AFTER_HELP@, "LINES"@),
    ]
}

/// The options that say which files to look in.
pub open spec fn files_options() -> Seq<OptionDecl> {
    seq![
        flag("R"@, "recursive"@, RECURSIVE_HELP@),
        flag("l"@, "follow"@, FOLLOW_HELP@),
        values(""@, "include"@, INCLUDE_HELP@, "GLOB"@),
        values(""@, "exclude"@, EXCLUDE_HELP@, "GLOB"@),
        values(""@, "exclude-dir"@, EXCLUDE_DIR_HELP@, "GLOB"@),
        flag("u"@, "ignore-non-utf8"@, IGNORE_NON_UTF8_HELP@),
        flag("a"@, "all"@, ALL_HELP@),
    ]
}

/// The options on the output as a whole, and those that ask about the program.
pub open spec fn general_options() -> Seq<OptionDecl> {
    seq![
        flag("c"@, "colors"@, COLORS_HELP@),
        flag(""@, "stdout"@, STDOUT_HELP@),
        flag("q"@, "quiet"@, QUIET_HELP@),
        flag("V"@, "version"@, VERSION_HELP@),
        flag("h"@, "help"@, HELP_HELP@),
    ]
}

/// The options of the program, in the order in which the usage lists them.
pub open spec fn ned_options() -> Seq<OptionDecl> {
    search_options() + syntax_options() + display_options() + files_options() + general_options()
}

/// A string of ASCII characters has a byte for each of them.
proof fn lemma_ascii_len(s: &str)
    requires
        is_ascii(s),
    ensures
        s.spec_bytes().len() == s@.len(),
{
    broadcast use is_ascii_spec_bytes;

}

/// The names of the options of this group have the lengths that the parser
/// asks for.
proof fn lemma_search_names()
    ensures
        names_fit("p".spec_bytes(), "pattern".spec_bytes()),
        names_fit("r".spec_bytes(), "replace".spec_bytes()),
        names_fit("w".spec_bytes(), "whole-files".spec_bytes()),
        names_fit("n".spec_bytes(), "number".spec_bytes()),
        names_fit("k".spec_bytes(), "skip".spec_bytes()),
        names_fit("b".spec_bytes(), "backwards".spec_bytes()),
{
    reveal_strlit("p");
    lemma_ascii_len("p");
    reveal_strlit("pattern");
    lemma_ascii_len("pattern");
    reveal_strlit("r");
    lemma_ascii_len("r");
    reveal_strlit("replace");
    lemma_ascii_len("replace");
    reveal_strlit("w");
    lemma_ascii_len("w");
    reveal_strlit("whole-files");
    lemma_ascii_len("whole-files");
    reveal_strlit("n");
    lemma_ascii_len("n");
    reveal_strlit("number");
    lemma_ascii_len("number");
    reveal_strlit("k");
    lemma_ascii_len("k");
    reveal_strlit("skip");
    lemma_ascii_len("skip");
    reveal_strlit("b");
    lemma_ascii_len("b");
    reveal_strlit("backwards");
    lemma_ascii_len("backwards");
}

fn declare_search(opts: &mut getopts::Options)
    ensures
        options_declared(*final(opts)) == options_declared(*old(opts)) + search_options(),
        options_long_only(*final(opts)) == options_long_only(*old(opts)),
        options_mixed(*final(opts)) == options_mixed(*old(opts)),
{
    proof {
        lemma_search_names();
    }
    add_value(opts, "p", "pattern", PATTERN_HELP, "PATTERN");
    add_value(opts, "r", "replace", REPLACE_HELP, "REPLACEMENT");
    add_flag(opts, "w", "whole-files", WHOLE_FILES_HELP);
    add_value(opts, "n", "number", NUMBER_HELP, "N");
    add_value(opts, "k", "skip", SKIP_HELP, "N");
    add_flag(opts, "b", "backwards", BACKWARDS_HELP);
    assert(options_declared(*opts) =~= options_declared(*old(opts)) + search_options());
}

/// The names of the options of this group have the lengths that the parser
/// asks for.
proof fn lemma_syntax_names()
    ensures
        names_fit("i".spec_bytes(), "ignore-case".spec_bytes()),
        names_fit("s".spec_bytes(), "single".spec_bytes()),
        names_fit("m".spec_bytes(), "multiline".spec_bytes()),
        names_fit("x".spec_bytes(), "extended".spec_bytes()),
{
    reveal_strlit("i");
    lemma_ascii_len("i");
    reveal_strlit("ignore-case");
    lemma_ascii_len("ignore-case");
    reveal_strlit("s");
    lemma_ascii_len("s");
    reveal_strlit("single");
    lemma_ascii_len("single");
    reveal_strlit("m");
    lemma_ascii_len("m");
    reveal_strlit("multiline");
    lemma_ascii_len("multiline");
    reveal_strlit("x");
    lemma_ascii_len("x");
    reveal_strlit("extended");
    lemma_ascii_len("extended");
}

fn declare_syntax(opts: &mut getopts::Options)
    ensures
        options_declared(*final(opts)) == options_declared(*old(opts)) + syntax_options(),
        options_long_only(*final(opts)) == options_long_only(*old(opts)),
        options_mixed(*final(opts)) == options_mixed(*old(opts)),
{
    proof {
        lemma_syntax_names();
    }
    add_flag(opts, "i", "ignore-case", IGNORE_CASE_HELP);
    add_flag(opts, "s", "single", SINGLE_HELP);
    add_flag(opts, "m", "multiline", MULTILINE_HELP);
    add_flag(opts, "x", "extended", EXTENDED_HELP);
    assert(options_declared(*opts) =~= options_declared(*old(opts)) + syntax_options());
}

/// The names of the options of this group have the lengths that the parser
/// asks for.
proof fn lemma_display_names()
    ensures
        names_fit("o".spec_bytes(), "matches-only".spec_bytes()),
        names_fit("g".spec_bytes(), "group".spec_bytes()),
        names_fit("v".spec_bytes(), "no-match".spec_bytes()),
        names_fit("f".spec_bytes(), "filenames-only".spec_bytes()),
        names_fit("F".spec_bytes(), "no-filenames".spec_bytes()),
        names_fit("C".spec_bytes(), "context".spec_bytes()),
        names_fit("B".spec_bytes(), "before".spec_bytes()),
        names_fit("A".spec_bytes(), "after".spec_bytes()),
{
    reveal_strlit("o");
    lemma_ascii_len("o");
    reveal_strlit("matches-only");
    lemma_ascii_len("matches-only");
    reveal_strlit("g");
    lemma_ascii_len("g");
    reveal_strlit("group");
    lemma_ascii_len("group");
    reveal_strlit("v");
    lemma_ascii_len("v");
    reveal_strlit("no-match");
    lemma_ascii_len("no-match");
    reveal_strlit("f");
    lemma_ascii_len("f");
    reveal_strlit("filenames-only");
    lemma_ascii_len("filenames-only");
    reveal_strlit("F");
    lemma_ascii_len("F");
    reveal_strlit("no-filenames");
    lemma_ascii_len("no-filenames");
    reveal_strlit("C");
    lemma_ascii_len("C");
    reveal_strlit("context");
    lemma_ascii_len("context");
    reveal_strlit("B");
    lemma_ascii_len("B");
    reveal_strlit("before");
    lemma_ascii_len("before");
    reveal_strlit("A");
    lemma_ascii_len("A");
    reveal_strlit("after");
    lemma_ascii_len("after");
}

fn declare_display(opts: &mut getopts::Options)
    ensures
        options_declared(*final(opts)) == options_declared(*old(opts)) + display_options(),
        options_long_only(*final(opts)) == options_long_only(*old(opts)),
        options_mixed(*final(opts)) == options_mixed(*old(opts)),
{
    proof {
        lemma_display_names();
    }
    add_flag(opts, "o", "matches-only", MATCHES_ONLY_HELP);
    add_value(opts, "g", "group", GROUP_HELP, "GROUP");
    add_flag(opts, "v", "no-match", NO_MATCH_HELP);
    add_flag(opts, "f", "filenames-only", FILENAMES_ONLY_HELP);
    add_flag(opts, "F", "no-filenames", NO_FILENAMES_HELP);
    add_value(opts, "C", "context", CONTEXT_HELP, "LINES");
    add_value(opts, "B", "before", BEFORE_HELP, "LINES");
    add_value(opts, "A", "after", AFTER_HELP, "LINES");
    assert(options_declared(*opts) =~= options_declared(*old(opts)) + display_options());
}

/// The names of the options of this group have the lengths that the parser
/// asks for.
proof fn lemma_files_names()
    ensures
        names_fit("R".spec_bytes(), "recursive".spec_bytes()),
        names_fit("l".spec_bytes(), "follow".spec_bytes()),
        names_fit("".spec_bytes(), "include".spec_bytes()),
        names_fit("".spec_bytes(), "exclude".spec_bytes()),
        names_fit("".spec_bytes(), "exclude-dir".spec_bytes()),
        names_fit("u".spec_bytes(), "ignore-non-utf8".spec_bytes()),
        names_fit("a".spec_bytes(), "all".spec_bytes()),
{
    reveal_strlit("R");
    lemma_ascii_len("R");
    reveal_strlit("recursive");
    lemma_ascii_len("recursive");
    reveal_strlit("l");
    lemma_ascii_len("l");
    reveal_strlit("follow");
    lemma_ascii_len("follow");
    reveal_strlit("");
    lemma_ascii_len("");
    reveal_strlit("include");
    lemma_ascii_len("include");
    reveal_strlit("exclude");
    lemma_ascii_len("exclude");
    reveal_strlit("exclude-dir");
    lemma_ascii_len("exclude-dir");
    reveal_strlit("u");
    lemma_ascii_len("u");
    reveal_strlit("ignore-non-utf8");
    lemma_ascii_len("ignore-non-utf8");
    reveal_strlit("a");
    lemma_ascii_len("a");
    reveal_strlit("all");
    lemma_ascii_len("all");
}

fn declare_files(opts: &mut getopts::Options)
    ensures
        options_declared(*final(opts)) == options_declared(*old(opts)) + files_options(),
        options_long_only(*final(opts)) == options_long_only(*old(opts)),
        options_mixed(*final(opts)) == options_mixed(*old(opts)),
{
    proof {
        lemma_files_names();
    }
    add_flag(opts, "R", "recursive", RECURSIVE_HELP);
    add_flag(opts, "l", "follow", FOLLOW_HELP);
    add_values(opts, "", "include", INCLUDE_HELP, "GLOB");
    add_values(opts, "", "exclude", EXCLUDE_HELP, "GLOB");
    add_values(opts, "", "exclude-dir", EXCLUDE_DIR_HELP, "GLOB");
    add_flag(opts, "u", "ignore-non-utf8", IGNORE_NON_UTF8_HELP);
    add_flag(opts, "a", "all", ALL_HELP);
    assert(options_declared(*opts) =~= options_declared(*old(opts)) + files_options());
}

/// The names of the options of this group have the lengths that the parser
/// asks for.
proof fn lemma_general_names()
    ensures
        names_fit("c".spec_bytes(), "colors".spec_bytes()),
        names_fit("".spec_bytes(), "stdout".spec_bytes()),
        names_fit("q".spec_bytes(), "quiet".spec_bytes()),
        names_fit("V".spec_bytes(), "version".spec_bytes()),
        names_fit("h".spec_bytes(), "help".spec_bytes()),
{
    reveal_strlit("c");
    lemma_ascii_len("c");
    reveal_strlit("colors");
    lemma_ascii_len("colors");
    reveal_strlit("");
    lemma_ascii_len("");
    reveal_strlit("stdout");
    lemma_ascii_len("stdout");
    reveal_strlit("q");
    lemma_ascii_len("q");
    reveal_strlit("quiet");
    lemma_ascii_len("quiet");
    reveal_strlit("V");
    lemma_ascii_len("V");
    reveal_strlit("version");
    lemma_ascii_len("version");
    reveal_strlit("h");
    lemma_ascii_len("h");
    reveal_strlit("help");
    lemma_ascii_len("help");
}

fn declare_general(opts: &mut getopts::Options)
    ensures
        options_declared(*final(opts)) == options_declared(*old(opts)) + general_options(),
        options_long_only(*final(opts)) == options_long_only(*old(opts)),
        options_mixed(*final(opts)) == options_mixed(*old(opts)),
{
    proof {
        lemma_general_names();
    }
    add_flag(opts, "c", "colors", COLORS_HELP);
    add_flag(opts, "", "stdout", STDOUT_HELP);
    add_flag(opts, "q", "quiet", QUIET_HELP);
    add_flag(opts, "V", "version", VERSION_HELP);
    add_flag(opts, "h", "help", HELP_HELP);
    assert(options_declared(*opts) =~= options_declared(*old(opts)) + general_options());
}

/// Declares the options of the program. Options and free arguments may
/// be mixed, so that the pattern can follow the files behind `-p`; a long
/// option takes two dashes.
pub fn make_opts() -> (opts: getopts::Options)
    ensures
        options_declared(opts) == ned_options(),
        options_mixed(opts),
        !options_long_only(opts),
{
    let mut opts = new_options();
    mix_freely(&mut opts);
    declare_search(&mut opts);
    declare_syntax(&mut opts);
    declare_display(&mut opts);
    declare_files(&mut opts);
    declare_general(&mut opts);
    assert(options_declared(opts) =~= ned_options());
    opts
}

/// All of the help: the usage with the options, the notes that follow
/// them, and the line of the version with the licence.
pub open spec fn full_text(opts: getopts::Options) -> Seq<char> {
    "\n"@ + usage_text(options_declared(opts), options_long_only(opts), brief_text()) + "\n"@
        + POST_DESCRIPTION@ + "\n\n"@ + PROGRAM@ + " "@ + VERSION@ + " "@ + COPYRIGHT@ + "\n\n"@
        + LICENSE@ + "\n\n"@
}

/// The text that answers `--help`, for the options `opts`.
pub fn usage_full(opts: &getopts::Options) -> (r: String)
    ensures
        r@ == full_text(*opts),
{
    let brief = usage_brief();
    let usage = options_usage(opts, brief.as_str());
    let mut s = String::from_str("\n");
    s.append(usage.as_str());
    s.append("\n");
    s.append(POST_DESCRIPTION);
    s.append("\n\n");
    s.append(PROGRAM);
    s.append(" ");
    s.append(VERSION);
    s.append(" ");
    s.append(COPYRIGHT);
    s.append("\n\n");
    s.append(LICENSE);
    s.append("\n\n");
    s
}

} // verus!
