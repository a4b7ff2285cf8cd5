//! From what the command line said to what a run is given: the pattern is
//! found and compiled, the globs are compiled, the rest is carried over.

use vstd::prelude::*;
use vstd::string::*;
use crate::args::texts;
use crate::config::ModeConfig;
use crate::file::Parameters;
use crate::pattern::{inline_source, InvalidPattern, PatternFlags, PatternSpec};
use crate::select::{glob_valid, FileSelectionCriteria, GlobPattern, InvalidGlob};

verus! {

/// What the command line said, option by option, with nothing compiled.
pub struct RawOptions {
    /// The value of `--pattern`.
    pub pattern: Option<String>,
    /// The value of `--replace`.
    pub replace: Option<String>,
    /// The value of `--group`.
    pub group: Option<String>,
    /// The values of `--include`, `--exclude` and `--exclude-dir`.
    pub includes: Vec<String>,
    pub excludes: Vec<String>,
    pub exclude_dirs: Vec<String>,
    /// The arguments that are no options, in their order.
    pub free: Vec<String>,
    pub whole_files: bool,
    pub ignore_case: bool,
    pub single: bool,
    pub multiline: bool,
    pub extended: bool,
    pub matches_only: bool,
    pub no_match: bool,
    pub filenames_only: bool,
    pub no_filenames: bool,
    pub recursive: bool,
    pub follow: bool,
    pub ignore_non_utf8: bool,
    pub all: bool,
    pub colors: bool,
    pub stdout: bool,
    pub quiet: bool,
    pub version: bool,
    pub help: bool,
}

/// Why the parameters could not be made.
#[derive(Debug)]
pub enum ParameterError {
    Pattern(InvalidPattern),
    Glob(InvalidGlob),
}

/// The pattern as it was written: the value of `--pattern`, or without that
/// option the first of the free arguments.
pub open spec fn pattern_text(raw: RawOptions) -> Option<Seq<char>> {
    match raw.pattern {
        Some(p) => Some(p@),
        None => if raw.free@.len() > 0 {
            Some(raw.free@[0]@)
        } else {
            None
        },
    }
}

/// The files and directories to look in: the free arguments, without the
/// first where that is the pattern.
pub open spec fn roots_of(raw: RawOptions) -> Seq<Seq<char>> {
    if raw.pattern is None && raw.free@.len() > 0 {
        texts(raw.free@).skip(1)
    } else {
        texts(raw.free@)
    }
}

/// The flags of the pattern that the command line set.
pub open spec fn flags_of(raw: RawOptions) -> PatternFlags {
    PatternFlags {
        ignore_case: raw.ignore_case,
        dot_matches_newline: raw.single,
        multiline: raw.multiline,
        extended: raw.extended,
    }
}

/// Each of `sources` is a well-formed glob.
pub open spec fn all_valid(sources: Seq<String>) -> bool {
    forall|i: int| 0 <= i < sources.len() ==> glob_valid(#[trigger] sources[i]@)
}

/// Every glob of the command line is well formed.
pub open spec fn globs_valid(raw: RawOptions) -> bool {
    all_valid(raw.includes@) && all_valid(raw.excludes@) && all_valid(raw.exclude_dirs@)
}

/// `globs` are `sources`, compiled.
pub open spec fn compiled_from(globs: Seq<GlobPattern>, sources: Seq<String>) -> bool {
    &&& globs.len() == sources.len()
    &&& forall|i: int| 0 <= i < globs.len() ==> (#[trigger] globs[i])@ == sources[i]@
}

/// The characters of an optional string.
pub open spec fn opt_text(s: Option<String>) -> Option<Seq<char>> {
    match s {
        Some(s) => Some(s@),
        None => None,
    }
}

/// `parameters` say what `raw` said.
pub open spec fn carries(parameters: Parameters, raw: RawOptions) -> bool {
    &&& opt_text(parameters.replace) == opt_text(raw.replace)
    &&& opt_text(parameters.mode.group) == opt_text(raw.group)
    &&& parameters.mode.quiet == raw.quiet
    &&& parameters.mode.whole_files == raw.whole_files
    &&& parameters.mode.only_matches == raw.matches_only
    &&& parameters.mode.no_match == raw.no_match
    &&& parameters.mode.filenames_only == raw.filenames_only
    &&& parameters.mode.no_filenames == raw.no_filenames
    &&& parameters.mode.colors == raw.colors
    &&& parameters.mode.stdout == raw.stdout
    &&& parameters.mode.ignore_non_utf8 == raw.ignore_non_utf8
    &&& parameters.selection.recursive == raw.recursive
    &&& parameters.selection.follow_symlinks == raw.follow
    &&& parameters.selection.show_hidden == raw.all
    &&& compiled_from(parameters.selection.include_globs@, raw.includes@)
    &&& compiled_from(parameters.selection.exclude_globs@, raw.excludes@)
    &&& compiled_from(parameters.selection.exclude_dir_globs@, raw.exclude_dirs@)
    &&& texts(parameters.roots@) == roots_of(raw)
    &&& parameters.stdin == (roots_of(raw).len() == 0)
    &&& parameters.version == raw.version
    &&& parameters.help == raw.help
    &&& match pattern_text(raw) {
        Some(text) => parameters.regex is Some && parameters.regex->0@ == inline_source(
            flags_of(raw),
            text,
        ),
        None => parameters.regex is None,
    }
}

/// Compiles each of `sources`, and gives up at the first that is no glob.
pub fn compile_globs(sources: &Vec<String>) -> (r: Result<Vec<GlobPattern>, InvalidGlob>)
    ensures
        r is Ok == all_valid(sources@),
        r matches Ok(globs) ==> compiled_from(globs@, sources@),
{
    let mut globs: Vec<GlobPattern> = Vec::new();
    let mut i: usize = 0;
    while i < sources.len()
        invariant
            i <= sources@.len(),
            globs@.len() == i,
            forall|k: int| 0 <= k < i ==> glob_valid(#[trigger] sources@[k]@),
            forall|k: int| 0 <= k < i ==> (#[trigger] globs@[k])@ == sources@[k]@,
        decreases sources@.len() - i,
    {
        match GlobPattern::new(sources[i].as_str()) {
            Ok(glob) => {
                globs.push(glob);
            },
            Err(e) => {
                assert(!glob_valid(sources@[i as int]@));
                return Err(e);
            },
        }
        i += 1;
    }
    Ok(globs)
}

/// Takes the pattern away from the free arguments where it stands there.
/// Returns the pattern as written, if there is one, and the roots.
pub fn part_pattern(pattern: Option<String>, free: Vec<String>) -> (r: (
    Option<String>,
    Vec<String>,
))
    ensures
        opt_text(r.0) == match pattern {
            Some(p) => Some(p@),
            None => if free@.len() > 0 {
                Some(free@[0]@)
            } else {
                None
            },
        },
        texts(r.1@) == if pattern is None && free@.len() > 0 {
            texts(free@).skip(1)
        } else {
            texts(free@)
        },
{
    match pattern {
        Some(p) => (Some(p), free),
        None => {
            let mut roots = free;
            if roots.len() > 0 {
                let first = roots.remove(0);
                assert(texts(roots@) =~= texts(free@).skip(1));
                (Some(first), roots)
            } else {
                (None, roots)
            }
        },
    }
}

/// Makes the parameters of a run.
///
/// The globs are compiled first: where one of them is no glob the result is
/// `Glob`. Then the pattern is compiled, with the flags in front of it;
/// where the engine refuses it the result is `Pattern`. Without a pattern
/// the parameters have none.
pub fn get_parameters(raw: RawOptions) -> (r: Result<Parameters, ParameterError>)
    ensures
        !globs_valid(raw) <==> r matches Err(ParameterError::Glob(_)),
        globs_valid(raw) && pattern_text(raw) is None ==> r is Ok,
        r matches Ok(parameters) ==> carries(parameters, raw),
        r matches Err(ParameterError::Pattern(_)) ==> globs_valid(raw) && pattern_text(raw) is Some,
{
    let include_globs = match compile_globs(&raw.includes) {
        Ok(globs) => globs,
        Err(e) => {
            return Err(ParameterError::Glob(e));
        },
    };
    let exclude_globs = match compile_globs(&raw.excludes) {
        Ok(globs) => globs,
        Err(e) => {
            return Err(ParameterError::Glob(e));
        },
    };
    let exclude_dir_globs = match compile_globs(&raw.exclude_dirs) {
        Ok(globs) => globs,
        Err(e) => {
            return Err(ParameterError::Glob(e));
        },
    };
    let flags = PatternFlags {
        ignore_case: raw.ignore_case,
        dot_matches_newline: raw.single,
        multiline: raw.multiline,
        extended: raw.extended,
    };
    let (text, roots) = part_pattern(raw.pattern, raw.free);
    let regex = match text {
        Some(text) => match PatternSpec::new(text.as_str(), &flags) {
            Ok(pattern) => Some(pattern),
            Err(e) => {
                return Err(ParameterError::Pattern(e));
            },
        },
        None => None,
    };
    let stdin = roots.len() == 0;
    Ok(
        Parameters {
            regex,
            replace: raw.replace,
            mode: ModeConfig {
                quiet: raw.quiet,
                whole_files: raw.whole_files,
                only_matches: raw.matches_only,
                group: raw.group,
                no_match: raw.no_match,
                filenames_only: raw.filenames_only,
                no_filenames: raw.no_filenames,
                colors: raw.colors,
                stdout: raw.stdout,
                ignore_non_utf8: raw.ignore_non_utf8,
            },
            selection: FileSelectionCriteria {
                recursive: raw.recursive,
                follow_symlinks: raw.follow,
                include_globs,
                exclude_globs,
                exclude_dir_globs,
                show_hidden: raw.all,
            },
            stdin,
            roots,
            version: raw.version,
            help: raw.help,
        },
    )
}

} // verus!
