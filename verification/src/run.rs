//! A run over several sources: what is kept from each, what the run comes
//! to, and when it may end early.

use vstd::prelude::*;
use vstd::string::*;
use vstd::utf8::*;
use crate::config::{resolve, Mode};
use crate::file::{
    file_outcome,
    process_file,
    FileOutcome,
    NedError,
    OutcomeSpec,
    Parameters,
    Source,
};
use crate::opts::PROGRAM;
use crate::select::{
    any_matches,
    inside,
    is_hidden,
    lemma_excluded_dir_prunes,
    lemma_hidden_entries_pass,
    lemma_selected_prefix,
    selected,
    Entry,
    EntrySpec,
    Selector,
    Verdict,
};
use crate::text::append_bytes;

verus! {

/// A file that was read: its path as it is shown, and its bytes.
pub struct FileInput {
    pub name: String,
    pub raw: Vec<u8>,
}

/// What a run over files came to.
pub struct RunOutcome {
    /// Whether a file counts towards "matches found".
    pub found: bool,
    /// The bytes for the output: those of each file, in the order of the
    /// files.
    pub output: Vec<u8>,
    /// The files to rewrite, each by its position, with its new content.
    pub rewrites: Vec<(usize, String)>,
    /// The files that were given up, each by its position, with the reason.
    pub failures: Vec<(usize, NedError)>,
}

/// A `RunOutcome` as the contracts speak of it: texts as their bytes.
pub struct RunSpec {
    pub found: bool,
    pub output: Seq<u8>,
    pub rewrites: Seq<(usize, Seq<u8>)>,
    pub failures: Seq<(usize, NedError)>,
}

impl View for RunOutcome {
    type V = RunSpec;

    open spec fn view(&self) -> RunSpec {
        RunSpec {
            found: self.found,
            output: self.output@,
            rewrites: self.rewrites@.map_values(|r: (usize, String)| (r.0, encode_utf8(r.1@))),
            failures: self.failures@,
        }
    }
}

/// What the program does at all.
#[derive(Clone, Copy, Debug, PartialEq, Eq, Structural)]
pub enum Action {
    ShowVersion,
    ShowUsage,
    Run,
}

/// The version is shown where it is asked for; the usage where help is
/// asked for or there is no pattern; else the run takes place.
pub open spec fn action_of(parameters: Parameters) -> Action {
    if parameters.version {
        Action::ShowVersion
    } else if parameters.regex is None || parameters.help {
        Action::ShowUsage
    } else {
        Action::Run
    }
}

/// What the program does for `parameters`.
pub fn action(parameters: &Parameters) -> (a: Action)
    ensures
        a == action_of(*parameters),
{
    if parameters.version {
        Action::ShowVersion
    } else if parameters.regex.is_none() || parameters.help {
        Action::ShowUsage
    } else {
        Action::Run
    }
}

/// Where a run takes its content from: the standard input where the
/// parameters say so, else the files under its roots.
pub open spec fn origin_of(parameters: Parameters) -> Source {
    if parameters.stdin {
        Source::Stdin
    } else {
        Source::File
    }
}

/// Where the run takes its content from.
pub fn source_of(parameters: &Parameters) -> (origin: Source)
    ensures
        origin == origin_of(*parameters),
{
    if parameters.stdin {
        Source::Stdin
    } else {
        Source::File
    }
}

/// A run before its first file: nothing found, nothing written, nothing to
/// rewrite, nothing given up.
pub open spec fn empty_run() -> RunSpec {
    RunSpec {
        found: false,
        output: Seq::<u8>::empty(),
        rewrites: Seq::<(usize, Seq<u8>)>::empty(),
        failures: Seq::<(usize, NedError)>::empty(),
    }
}

impl RunOutcome {
    /// A run before its first file.
    pub fn new() -> (run: RunOutcome)
        ensures
            run@ == empty_run(),
    {
        let run = RunOutcome {
            found: false,
            output: Vec::new(),
            rewrites: Vec::new(),
            failures: Vec::new(),
        };
        assert(run@.rewrites =~= Seq::<(usize, Seq<u8>)>::empty());
        run
    }
}

/// The outcome for one file of a run.
pub open spec fn input_outcome(parameters: Parameters, input: FileInput) -> Result<
    OutcomeSpec,
    NedError,
> {
    file_outcome(parameters, Some(encode_utf8(input.name@)), Source::File, input.raw@)
}

/// A run with `outcome` for the file at `position` added to it. A file
/// that was given up leaves "found" and the output as they are.
pub open spec fn run_with(
    run: RunSpec,
    position: usize,
    outcome: Result<OutcomeSpec, NedError>,
) -> RunSpec {
    match outcome {
        Ok(o) => RunSpec {
            found: run.found || o.found,
            output: run.output + o.output,
            rewrites: match o.rewrite {
                Some(content) => run.rewrites.push((position, content)),
                None => run.rewrites,
            },
            failures: run.failures,
        },
        Err(e) => RunSpec {
            found: run.found,
            output: run.output,
            rewrites: run.rewrites,
            failures: run.failures.push((position, e)),
        },
    }
}

/// The run over the first `upto` of `inputs`, one after the other.
pub open spec fn run_of(parameters: Parameters, inputs: Seq<FileInput>, upto: int) -> RunSpec
    decreases upto,
{
    if upto <= 0 {
        empty_run()
    } else {
        run_with(
            run_of(parameters, inputs, upto - 1),
            (upto - 1) as usize,
            input_outcome(parameters, inputs[upto - 1]),
        )
    }
}

/// A run may end early where it only tests for a match and has found one:
/// nothing is replaced, and the mode is the quiet one.
pub open spec fn stop_allowed(parameters: Parameters, found: bool) -> bool {
    found && parameters.replace is None && resolve(parameters.mode) is QuietExistenceOnly
}

/// Whether the run may end before the files that are left have been read.
pub fn may_stop(parameters: &Parameters, found: bool) -> (b: bool)
    ensures
        b == stop_allowed(*parameters, found),
{
    found && parameters.replace.is_none() && match parameters.mode.mode() {
        Mode::QuietExistenceOnly => true,
        _ => false,
    }
}

/// Where a run may end early, the files that are left can add nothing to
/// it: "found" stays, and so do the output and the files to rewrite. Only
/// the list of the files given up can still grow.
pub proof fn lemma_early_stop(parameters: Parameters, inputs: Seq<FileInput>, at: int, upto: int)
    requires
        0 <= at <= upto <= inputs.len(),
        stop_allowed(parameters, run_of(parameters, inputs, at).found),
    ensures
        run_of(parameters, inputs, upto).found == run_of(parameters, inputs, at).found,
        run_of(parameters, inputs, upto).output == run_of(parameters, inputs, at).output,
        run_of(parameters, inputs, upto).rewrites == run_of(parameters, inputs, at).rewrites,
    decreases upto - at,
{
    if at < upto {
        lemma_early_stop(parameters, inputs, at, upto - 1);
        let before = run_of(parameters, inputs, upto - 1);
        match input_outcome(parameters, inputs[upto - 1]) {
            Ok(o) => {
                assert(o.output =~= Seq::<u8>::empty());
                assert(before.output + o.output =~= before.output);
            },
            Err(_) => {},
        }
    }
}

/// "Found" is the disjunction over the files: a run has found something
/// exactly where one of its files has.
pub proof fn lemma_found_is_any(parameters: Parameters, inputs: Seq<FileInput>, upto: int)
    requires
        0 <= upto <= inputs.len(),
    ensures
        run_of(parameters, inputs, upto).found <==> exists|i: int|
            0 <= i < upto && (#[trigger] input_outcome(parameters, inputs[i])) is Ok
                && input_outcome(parameters, inputs[i])->Ok_0.found,
    decreases upto,
{
    if upto > 0 {
        lemma_found_is_any(parameters, inputs, upto - 1);
        let last = input_outcome(parameters, inputs[upto - 1]);
        if run_of(parameters, inputs, upto).found {
            if run_of(parameters, inputs, upto - 1).found {
                let i = choose|i: int|
                    0 <= i < upto - 1 && (#[trigger] input_outcome(parameters, inputs[i])) is Ok
                        && input_outcome(parameters, inputs[i])->Ok_0.found;
                assert(0 <= i < upto);
            } else {
                assert(last is Ok && last->Ok_0.found);
            }
        }
    }
}

/// Adds what came of the file at `position` to the run.
pub fn record(run: &mut RunOutcome, position: usize, result: Result<FileOutcome, NedError>)
    ensures
        final(run)@ == run_with(
            old(run)@,
            position,
            match result {
                Ok(o) => Ok(o@),
                Err(e) => Err(e),
            },
        ),
{
    match result {
        Ok(outcome) => {
            run.found = run.found || outcome.found;
            append_bytes(&mut run.output, outcome.output.as_slice());
            match outcome.rewrite {
                Some(content) => {
                    run.rewrites.push((position, content));
                    assert(run@.rewrites =~= old(run)@.rewrites.push(
                        (position, encode_utf8(content@)),
                    ));
                },
                None => {
                    assert(run@.rewrites =~= old(run)@.rewrites);
                },
            }
        },
        Err(e) => {
            run.failures.push((position, e));
            assert(run@.rewrites =~= old(run)@.rewrites);
        },
    }
}

/// Processes the files in their order. A file that is given up does not
/// end the run.
pub fn process_files(parameters: &Parameters, inputs: &Vec<FileInput>) -> (run: RunOutcome)
    ensures
        run@ == run_of(*parameters, inputs@, inputs@.len() as int),
{
    let mut run = RunOutcome::new();
    let mut i: usize = 0;
    while i < inputs.len()
        invariant
            i <= inputs@.len(),
            run@ == run_of(*parameters, inputs@, i as int),
        decreases inputs@.len() - i,
    {
        let input = &inputs[i];
        let result = process_file(
            parameters,
            Some(input.name.as_str()),
            Source::File,
            input.raw.as_slice(),
        );
        record(&mut run, i, result);
        i += 1;
    }
    run
}

/// The exit code of a run: 0 where something was found, 1 where not.
pub fn exit_code(found: bool) -> (code: i32)
    ensures
        code == if found {
            0i32
        } else {
            1i32
        },
{
    if found {
        0
    } else {
        1
    }
}

/// What is said of each reason to give a source up.
pub open spec fn message_of(e: NedError) -> Seq<char> {
    match e {
        NedError::MissingPattern => "no pattern was given"@,
        NedError::NonUtf8 => "the content is not valid UTF-8"@,
        NedError::Io => "the source could not be opened, read or written"@,
    }
}

/// The message for `e`.
pub fn message(e: NedError) -> (m: &'static str)
    ensures
        m@ == message_of(e),
{
    match e {
        NedError::MissingPattern => "no pattern was given",
        NedError::NonUtf8 => "the content is not valid UTF-8",
        NedError::Io => "the source could not be opened, read or written",
    }
}

/// The line that reports a failure on `path`: the program's name, the
/// path and the message, with `: ` between them, and a line feed.
pub open spec fn diagnostic_line(path: Seq<char>, message: Seq<char>) -> Seq<char> {
    PROGRAM@ + ": "@ + path + ": "@ + message + "\n"@
}

/// The line for the diagnostic stream about a failure on `path`.
pub fn diagnostic(path: &str, message: &str) -> (line: String)
    ensures
        line@ == diagnostic_line(path@, message@),
{
    let mut line = String::from_str(PROGRAM);
    line.append(": ");
    line.append(path);
    line.append(": ");
    line.append(message);
    line.append("\n");
    line
}

/// An entry that a walk met, with the path under which it is shown and
/// the bytes that it holds if it is a file. Of an entry that is not
/// selected the bytes are never looked at.
pub struct Walked<'a> {
    pub entry: Entry<'a>,
    pub path: &'a str,
    pub raw: &'a [u8],
}

/// The entries of what a walk met.
pub open spec fn walked_entries(walked: Seq<Walked<'_>>) -> Seq<EntrySpec> {
    walked.map_values(|w: Walked<'_>| w.entry@)
}

/// The outcome for one file that a walk met.
pub open spec fn walked_outcome(parameters: Parameters, walked: Walked<'_>) -> Result<
    OutcomeSpec,
    NedError,
> {
    file_outcome(parameters, Some(walked.path.spec_bytes()), Source::File, walked.raw@)
}

/// The run over the first `upto` entries of a walk: each entry that the
/// criteria select is processed, in the order of the walk, and no other.
pub open spec fn walk_run(parameters: Parameters, walked: Seq<Walked<'_>>, upto: int) -> RunSpec
    decreases upto,
{
    if upto <= 0 {
        empty_run()
    } else if selected(parameters.selection, walked_entries(walked), upto - 1) {
        run_with(
            walk_run(parameters, walked, upto - 1),
            (upto - 1) as usize,
            walked_outcome(parameters, walked[upto - 1]),
        )
    } else {
        walk_run(parameters, walked, upto - 1)
    }
}

/// A file in a directory that an `exclude_dir` glob matches leaves the run
/// as it was: it is not read, nothing is written for it, it is not
/// rewritten, and it does not count. The directory is any below the root,
/// and the `include` globs make no difference.
pub proof fn lemma_excluded_dir_leaves_run(
    parameters: Parameters,
    walked: Seq<Walked<'_>>,
    dir: int,
    file: int,
)
    requires
        inside(walked_entries(walked), dir, file),
        walked_entries(walked)[dir].kind is Directory,
        walked_entries(walked)[dir].depth >= 1,
        any_matches(parameters.selection.exclude_dir_globs@, walked_entries(walked)[dir].name),
    ensures
        walk_run(parameters, walked, file + 1) == walk_run(parameters, walked, file),
{
    lemma_excluded_dir_prunes(parameters.selection, walked_entries(walked), dir, file);
}

/// Without `show_hidden` a hidden entry below the root, and what lies in a
/// hidden directory below the root, leaves the run as it was.
pub proof fn lemma_hidden_leaves_run(
    parameters: Parameters,
    walked: Seq<Walked<'_>>,
    hidden: int,
    file: int,
)
    requires
        !parameters.selection.show_hidden,
        0 <= hidden < walked.len(),
        walked_entries(walked)[hidden].depth >= 1,
        is_hidden(walked_entries(walked)[hidden].name),
        file == hidden || (walked_entries(walked)[hidden].kind is Directory && inside(
            walked_entries(walked),
            hidden,
            file,
        )),
    ensures
        walk_run(parameters, walked, file + 1) == walk_run(parameters, walked, file),
{
    lemma_hidden_entries_pass(parameters.selection, walked_entries(walked), hidden, file);
}

/// A run over what a walk met: the entries are decided in the order of the
/// walk, and each file that is selected is processed.
pub fn process_walk(parameters: &Parameters, walked: &Vec<Walked<'_>>) -> (run: RunOutcome)
    ensures
        run@ == walk_run(*parameters, walked@, walked@.len() as int),
{
    let ghost all = walked_entries(walked@);
    let mut selector = Selector::new(&parameters.selection);
    let mut run = RunOutcome::new();
    let mut j: usize = 0;
    assert(all.take(0) =~= Seq::<EntrySpec>::empty());
    while j < walked.len()
        invariant
            j <= walked@.len(),
            all == walked_entries(walked@),
            selector.wf(),
            selector.criteria() == parameters.selection,
            selector.entries() == all.take(j as int),
            run@ == walk_run(*parameters, walked@, j as int),
        decreases walked@.len() - j,
    {
        let verdict = selector.visit(&walked[j].entry);
        proof {
            assert(all[j as int] == walked@[j as int].entry@);
            assert(all.take(j + 1) =~= all.take(j as int).push(walked@[j as int].entry@));
            lemma_selected_prefix(parameters.selection, all, j as int);
        }
        match verdict {
            Verdict::Yield => {
                let result = process_file(
                    parameters,
                    Some(walked[j].path),
                    Source::File,
                    walked[j].raw,
                );
                record(&mut run, j, result);
            },
            _ => {},
        }
        j += 1;
    }
    run
}

} // verus!
