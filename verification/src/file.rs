//! What is done with the content of one source: decoding, then replacing
//! or matching, unit by unit where the mode asks for it.

use vstd::prelude::*;
use vstd::string::*;
use vstd::utf8::*;
use crate::config::{names_files, resolve, Mode, ModeConfig};
use crate::decide::{process_text, unit_emitted, unit_matched};
use crate::emit::{
    filename_header,
    opt_bytes,
    paint_red_bold,
    red_bold,
    regex_replaced,
    write_filename,
};
use crate::pattern::{engine_is_match, regex_is_match, replaced_all, PatternSpec};
use crate::replace::replace;
use crate::select::FileSelectionCriteria;
use crate::split::{spans_of, split, units_of, UnitSpan};
use crate::text::append_str;

verus! {

/// Where content came from. A file can be rewritten, the standard input
/// cannot.
#[derive(Clone, Copy, Debug, PartialEq, Eq, Structural)]
pub enum Source {
    Stdin,
    File,
}

/// Why a source was given up.
#[derive(Clone, Copy, Debug, PartialEq, Eq, Structural)]
pub enum NedError {
    /// There is no pattern to match with.
    MissingPattern,
    /// The content is not UTF-8 text.
    NonUtf8,
    /// The source could not be opened, read or written. Processing content
    /// never gives this: it is for the caller that does so to record.
    Io,
}

/// All that a run is given.
pub struct Parameters {
    pub regex: Option<PatternSpec>,
    /// The template to replace matches with. Where it is there, the run
    /// replaces.
    pub replace: Option<String>,
    pub mode: ModeConfig,
    pub selection: FileSelectionCriteria,
    /// Read the standard input, not files.
    pub stdin: bool,
    /// The roots of the walks.
    pub roots: Vec<String>,
    pub version: bool,
    pub help: bool,
}

/// What came of one source.
pub struct FileOutcome {
    /// Whether the source counts towards "matches found".
    pub found: bool,
    /// The bytes for the output, in order.
    pub output: Vec<u8>,
    /// The content to put in the place of the source's, if it is to be
    /// rewritten.
    pub rewrite: Option<String>,
}

/// A `FileOutcome` as the contracts speak of it: texts as their bytes.
pub struct OutcomeSpec {
    pub found: bool,
    pub output: Seq<u8>,
    pub rewrite: Option<Seq<u8>>,
}

impl View for FileOutcome {
    type V = OutcomeSpec;

    open spec fn view(&self) -> OutcomeSpec {
        OutcomeSpec {
            found: self.found,
            output: self.output@,
            rewrite: match self.rewrite {
                Some(s) => Some(encode_utf8(s@)),
                None => None,
            },
        }
    }
}

/// The bytes of an optional string that is owned.
pub open spec fn opt_string_bytes(s: Option<String>) -> Option<Seq<u8>> {
    match s {
        Some(s) => Some(encode_utf8(s@)),
        None => None,
    }
}

/// The text of a unit.
pub open spec fn unit_text(content: Seq<u8>, unit: UnitSpan) -> Seq<u8> {
    content.subrange(unit.start, unit.end)
}

/// Whether one of `units` counts as a match.
pub open spec fn units_found(
    config: ModeConfig,
    source: Seq<char>,
    content: Seq<u8>,
    units: Seq<UnitSpan>,
) -> bool
    decreases units.len(),
{
    if units.len() == 0 {
        false
    } else {
        units_found(config, source, content, units.drop_last()) || unit_matched(
            config,
            source,
            unit_text(content, units.last()),
        )
    }
}

/// What is written for `units`, one after the other.
pub open spec fn units_output(
    config: ModeConfig,
    source: Seq<char>,
    filename: Option<Seq<u8>>,
    content: Seq<u8>,
    units: Seq<UnitSpan>,
) -> Seq<u8>
    decreases units.len(),
{
    if units.len() == 0 {
        Seq::<u8>::empty()
    } else {
        units_output(config, source, filename, content, units.drop_last()) + unit_emitted(
            config,
            source,
            filename,
            unit_text(content, units.last()),
        )
    }
}

/// The template that is handed to the engine: highlighted where colours
/// are on, so that what is put in shows in the result.
pub open spec fn template_used(config: ModeConfig, template: Seq<u8>) -> Seq<u8> {
    if config.colors {
        red_bold(template)
    } else {
        template
    }
}

/// What holds of the substitution where a template is given: the new
/// content is the content with each match of the pattern replaced by what the
/// template used expands to, there is a span exactly where the pattern
/// matches, and a template without a `$` expands to itself.
pub open spec fn substitution_holds(
    config: ModeConfig,
    source: Seq<char>,
    template: Option<Seq<u8>>,
    content: Seq<u8>,
) -> bool {
    template matches Some(t) ==> replaced_all(
        source,
        content,
        template_used(config, t),
        regex_replaced(source, content, template_used(config, t)),
    )
}

/// The outcome for content that is text.
///
/// - With a template: all of the content is replaced in, whatever the unit.
///   It counts as found where the result differs from the content. The
///   result goes to the output, behind the header and unless the run is
///   quiet, where `stdout` is set; else it takes the place of the content of
///   a file.
/// - File names only, without a group: the pattern is tested on all of the
///   content; the header is written where it matches, or with `no_match`
///   where it does not. No unit is decided.
/// - Else by the mode. Quiet: the pattern is tested on all of the content;
///   nothing is written. Every other mode: the units are decided one after
///   the other.
pub open spec fn content_outcome(
    config: ModeConfig,
    source: Seq<char>,
    template: Option<Seq<u8>>,
    filename: Option<Seq<u8>>,
    origin: Source,
    content: Seq<u8>,
) -> OutcomeSpec {
    match template {
        Some(template) => {
            let new_content = regex_replaced(source, content, template_used(config, template));
            OutcomeSpec {
                found: new_content != content,
                output: if config.stdout && !config.quiet {
                    filename_header(config, filename) + new_content
                } else {
                    Seq::<u8>::empty()
                },
                rewrite: if !config.stdout && origin is File {
                    Some(new_content)
                } else {
                    None
                },
            }
        },
        None => if names_files(config) {
            OutcomeSpec {
                found: regex_is_match(source, content),
                output: if regex_is_match(source, content) != config.no_match {
                    filename_header(config, filename)
                } else {
                    Seq::<u8>::empty()
                },
                rewrite: None,
            }
        } else {
            match resolve(config) {
                Mode::QuietExistenceOnly => OutcomeSpec {
                    found: regex_is_match(source, content),
                    output: Seq::<u8>::empty(),
                    rewrite: None,
                },
                _ => OutcomeSpec {
                    found: units_found(
                        config,
                        source,
                        content,
                        units_of(content, config.whole_files),
                    ),
                    output: units_output(
                        config,
                        source,
                        filename,
                        content,
                        units_of(content, config.whole_files),
                    ),
                    rewrite: None,
                },
            }
        },
    }
}

/// Where a template is given and the pattern does not occur in the
/// content, nothing is found, and what is written or put in the place of the
/// content is the content as it was.
pub proof fn lemma_unmatched_content_stays(
    config: ModeConfig,
    source: Seq<char>,
    template: Seq<u8>,
    filename: Option<Seq<u8>>,
    origin: Source,
    content: Seq<u8>,
)
    requires
        substitution_holds(config, source, Some(template), content),
        !regex_is_match(source, content),
    ensures
        !content_outcome(config, source, Some(template), filename, origin, content).found,
        content_outcome(config, source, Some(template), filename, origin, content).rewrite
            == if !config.stdout && origin is File {
            Some(content)
        } else {
            None::<Seq<u8>>
        },
        content_outcome(config, source, Some(template), filename, origin, content).output
            == if config.stdout && !config.quiet {
            filename_header(config, filename) + content
        } else {
            Seq::<u8>::empty()
        },
{
}

/// The outcome for the bytes `raw` of a source.
///
/// Bytes that are not UTF-8 give no output and do not count as found where
/// `ignore_non_utf8` is set, and the error `NonUtf8` where it is not. Text
/// without a pattern to match it with gives `MissingPattern`.
pub open spec fn file_outcome(
    parameters: Parameters,
    filename: Option<Seq<u8>>,
    origin: Source,
    raw: Seq<u8>,
) -> Result<OutcomeSpec, NedError> {
    if !valid_utf8(raw) {
        if parameters.mode.ignore_non_utf8 {
            Ok(OutcomeSpec { found: false, output: Seq::<u8>::empty(), rewrite: None })
        } else {
            Err(NedError::NonUtf8)
        }
    } else if parameters.regex is None {
        Err(NedError::MissingPattern)
    } else {
        Ok(
            content_outcome(
                parameters.mode,
                parameters.regex->0@,
                opt_string_bytes(parameters.replace),
                filename,
                origin,
                raw,
            ),
        )
    }
}

/// `std::str::from_utf8`: the bytes as text, where they are valid UTF-8.
#[verifier::external_body]
fn decode<'a>(raw: &'a [u8]) -> (r: Option<&'a str>)
    ensures
        r is Some == valid_utf8(raw@),
        r matches Some(s) ==> s.spec_bytes() == raw@,
{
    match std::str::from_utf8(raw) {
        Ok(s) => Some(s),
        Err(_) => None,
    }
}

/// Decides the units of `content` in turn.
fn process_units(
    config: &ModeConfig,
    pattern: &PatternSpec,
    filename: Option<&str>,
    output: &mut Vec<u8>,
    content: &str,
) -> (found: bool)
    ensures
        found == units_found(
            *config,
            pattern@,
            content.spec_bytes(),
            units_of(content.spec_bytes(), config.whole_files),
        ),
        final(output)@ == old(output)@ + units_output(
            *config,
            pattern@,
            opt_bytes(filename),
            content.spec_bytes(),
            units_of(content.spec_bytes(), config.whole_files),
        ),
{
    let units = split(content, config.whole_files);
    let ghost spans = spans_of(units@);
    let ghost b = content.spec_bytes();
    let mut found = false;
    let mut i: usize = 0;
    assert(spans.take(0) =~= Seq::<UnitSpan>::empty());
    assert(output@ =~= old(output)@ + Seq::<u8>::empty());
    while i < units.len()
        invariant
            i <= units@.len(),
            spans == spans_of(units@),
            b == content.spec_bytes(),
            forall|k: int|
                0 <= k < units@.len() ==> (#[trigger] units@[k]).text.spec_bytes() == b.subrange(
                    units@[k].start as int,
                    units@[k].end as int,
                ),
            found == units_found(*config, pattern@, b, spans.take(i as int)),
            output@ == old(output)@ + units_output(
                *config,
                pattern@,
                opt_bytes(filename),
                b,
                spans.take(i as int),
            ),
        decreases units@.len() - i,
    {
        let ghost before = output@;
        let matched = process_text(config, pattern, filename, output, units[i].text);
        proof {
            assert(spans.take(i + 1).drop_last() =~= spans.take(i as int));
            assert(spans.take(i + 1).last() == units@[i as int]@);
            assert(unit_text(b, units@[i as int]@) == units@[i as int].text.spec_bytes());
            assert(output@ =~= old(output)@ + units_output(
                *config,
                pattern@,
                opt_bytes(filename),
                b,
                spans.take(i + 1),
            ));
        }
        found = found || matched;
        i += 1;
    }
    assert(spans.take(i as int) =~= spans);
    found
}

/// The outcome for `content`, which is text, under `config`.
pub fn process_content(
    config: &ModeConfig,
    pattern: &PatternSpec,
    template: Option<&str>,
    filename: Option<&str>,
    origin: Source,
    content: &str,
) -> (outcome: FileOutcome)
    ensures
        outcome@ == content_outcome(
            *config,
            pattern@,
            opt_bytes(template),
            opt_bytes(filename),
            origin,
            content.spec_bytes(),
        ),
        substitution_holds(*config, pattern@, opt_bytes(template), content.spec_bytes()),
{
    let mut output: Vec<u8> = Vec::new();
    if let Some(template) = template {
        let (new_content, changed) = if config.colors {
            let painted = paint_red_bold(template);
            replace(pattern, painted.as_str(), content)
        } else {
            replace(pattern, template, content)
        };
        let mut rewrite: Option<String> = None;
        if config.stdout {
            if !config.quiet {
                write_filename(config, filename, &mut output);
                append_str(&mut output, new_content.as_str());
            }
        } else {
            match origin {
                Source::File => {
                    rewrite = Some(new_content);
                },
                Source::Stdin => {},
            }
        }
        let outcome = FileOutcome { found: changed, output, rewrite };
        assert(outcome@.output =~= content_outcome(
            *config,
            pattern@,
            opt_bytes(Some(template)),
            opt_bytes(filename),
            origin,
            content.spec_bytes(),
        ).output);
        return outcome;
    }
    let found = if config.names_files() {
        let matched = engine_is_match(pattern, content);
        if matched != config.no_match {
            write_filename(config, filename, &mut output);
        }
        matched
    } else {
        match config.mode() {
            Mode::QuietExistenceOnly => engine_is_match(pattern, content),
            _ => process_units(config, pattern, filename, &mut output, content),
        }
    };
    let outcome = FileOutcome { found, output, rewrite: None };
    assert(outcome@.output =~= content_outcome(
        *config,
        pattern@,
        None,
        opt_bytes(filename),
        origin,
        content.spec_bytes(),
    ).output);
    outcome
}

/// The string inside an optional string that is owned.
pub fn opt_str(s: &Option<String>) -> (r: Option<&str>)
    ensures
        opt_bytes(r) == opt_string_bytes(*s),
{
    match s {
        Some(s) => Some(s.as_str()),
        None => None,
    }
}

/// The outcome for the bytes `raw` that were read from a source.
pub fn process_file(
    parameters: &Parameters,
    filename: Option<&str>,
    origin: Source,
    raw: &[u8],
) -> (r: Result<FileOutcome, NedError>)
    ensures
        match file_outcome(*parameters, opt_bytes(filename), origin, raw@) {
            Ok(outcome) => r matches Ok(o) && o@ == outcome,
            Err(e) => r == Err::<FileOutcome, NedError>(e),
        },
        valid_utf8(raw@) && parameters.regex is Some ==> substitution_holds(
            parameters.mode,
            parameters.regex->0@,
            opt_string_bytes(parameters.replace),
            raw@,
        ),
{
    let content = match decode(raw) {
        Some(content) => content,
        None => {
            if parameters.mode.ignore_non_utf8 {
                return Ok(FileOutcome { found: false, output: Vec::new(), rewrite: None });
            } else {
                return Err(NedError::NonUtf8);
            }
        },
    };
    match &parameters.regex {
        Some(pattern) => Ok(
            process_content(
                &parameters.mode,
                pattern,
                opt_str(&parameters.replace),
                filename,
                origin,
                content,
            ),
        ),
        None => Err(NedError::MissingPattern),
    }
}

} // verus!
