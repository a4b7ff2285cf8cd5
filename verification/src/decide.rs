//! The decision for one unit of text: whether it counts as a match, and the
//! bytes to write for it.

use vstd::prelude::*;
use vstd::string::*;
use crate::config::{resolve, Mode, ModeConfig};
use crate::emit::{
    filename_header,
    format_replacement,
    format_whole,
    formatted,
    highlighted,
    opt_bytes,
    record,
    write_filename,
    write_match,
    write_newline_if_replaced_text_ends_with_newline,
};
use crate::group::{group_index, parse_index};
use crate::pattern::{
    engine_find_spans,
    engine_group_at,
    engine_group_named,
    engine_is_match,
    regex_find_spans,
    regex_group_at,
    regex_group_named,
    regex_is_match,
    PatternSpec,
};
use crate::text::{append_str, newline_suffix, slice_str, span_bytes, spans_ordered};

verus! {

/// Whether a unit counts as a match, and what is written for it: the file
/// name in front and the closing line feed included.
pub struct MatchOutcome {
    pub matched: bool,
    pub emitted: Vec<u8>,
}

/// The span that the group designated by `group` took in the first match.
pub open spec fn group_span(source: Seq<char>, text: Seq<u8>, group: Seq<char>) -> Option<
    (usize, usize),
> {
    match parse_index(group) {
        Some(index) => regex_group_at(source, text, index),
        None => regex_group_named(source, text, group),
    }
}

/// One matched span as it is written: its text, highlighted where colours
/// are on, and a line feed unless that ends in one.
pub open spec fn span_record(colors: bool, text: Seq<u8>, span: (usize, usize)) -> Seq<u8> {
    highlighted(colors, span_bytes(text, span)) + newline_suffix(
        highlighted(colors, span_bytes(text, span)),
    )
}

/// The matched spans as they are written, one after the other.
pub open spec fn spans_emitted(colors: bool, text: Seq<u8>, spans: Seq<(usize, usize)>) -> Seq<u8>
    decreases spans.len(),
{
    if spans.len() == 0 {
        Seq::<u8>::empty()
    } else {
        spans_emitted(colors, text, spans.drop_last()) + span_record(colors, text, spans.last())
    }
}

/// Whether the unit `text` counts towards "found". Under inversion a unit
/// counts where the pattern does not match it; in every other mode where it
/// does.
pub open spec fn unit_matched(config: ModeConfig, source: Seq<char>, text: Seq<u8>) -> bool {
    match resolve(config) {
        Mode::Invert => !regex_is_match(source, text),
        _ => regex_is_match(source, text),
    }
}

/// The bytes written for the unit `text`.
///
/// - Group extraction: where the pattern matches and the group took part,
///   a record of the captured text; else nothing.
/// - Inversion: where the pattern does not match, a record of the unit as it
///   is; else nothing.
/// - File names only, quiet: nothing.
/// - Default: where the pattern matches, a record of the unit; with
///   `only_matches` the header once and then each matched span.
pub open spec fn unit_emitted(
    config: ModeConfig,
    source: Seq<char>,
    filename: Option<Seq<u8>>,
    text: Seq<u8>,
) -> Seq<u8> {
    match resolve(config) {
        Mode::GroupExtract => {
            if regex_is_match(source, text) && group_span(source, text, config.group->0@) is Some {
                record(
                    config,
                    filename,
                    formatted(
                        config.colors,
                        source,
                        span_bytes(text, group_span(source, text, config.group->0@)->0),
                    ),
                )
            } else {
                Seq::<u8>::empty()
            }
        },
        Mode::Invert => {
            if regex_is_match(source, text) {
                Seq::<u8>::empty()
            } else {
                record(config, filename, text)
            }
        },
        Mode::FilenamesOnly => Seq::<u8>::empty(),
        Mode::QuietExistenceOnly => Seq::<u8>::empty(),
        Mode::Default { only_matches } => {
            if !regex_is_match(source, text) {
                Seq::<u8>::empty()
            } else if only_matches {
                filename_header(config, filename) + spans_emitted(
                    config.colors,
                    text,
                    regex_find_spans(source, text),
                )
            } else {
                record(config, filename, formatted(config.colors, source, text))
            }
        },
    }
}

/// Writes each of `spans` as `span_record` says.
fn write_spans(config: &ModeConfig, output: &mut Vec<u8>, text: &str, spans: &Vec<(usize, usize)>)
    requires
        spans_ordered(text.spec_bytes(), spans@),
    ensures
        final(output)@ == old(output)@ + spans_emitted(config.colors, text.spec_bytes(), spans@),
{
    let mut i: usize = 0;
    assert(spans@.take(0) =~= Seq::<(usize, usize)>::empty());
    assert(output@ =~= old(output)@ + Seq::<u8>::empty());
    while i < spans.len()
        invariant
            i <= spans@.len(),
            spans_ordered(text.spec_bytes(), spans@),
            output@ == old(output)@ + spans_emitted(
                config.colors,
                text.spec_bytes(),
                spans@.take(i as int),
            ),
        decreases spans@.len() - i,
    {
        let span = spans[i];
        let part = slice_str(text, span);
        let shown = format_whole(config, part);
        let ghost before = output@;
        append_str(output, shown.as_str());
        write_newline_if_replaced_text_ends_with_newline(output, shown.as_str());
        proof {
            assert(spans@.take(i + 1).drop_last() =~= spans@.take(i as int));
            assert(spans@.take(i + 1).last() == span);
            assert(output@ =~= before + span_record(config.colors, text.spec_bytes(), span));
        }
        i += 1;
    }
    assert(spans@.take(i as int) =~= spans@);
}

/// Decides the unit `text` and appends to `output` what is to be written
/// for it. Returns whether the unit counts towards "found".
pub fn process_text(
    config: &ModeConfig,
    pattern: &PatternSpec,
    filename: Option<&str>,
    output: &mut Vec<u8>,
    text: &str,
) -> (found: bool)
    ensures
        found == unit_matched(*config, pattern@, text.spec_bytes()),
        final(output)@ == old(output)@ + unit_emitted(
            *config,
            pattern@,
            opt_bytes(filename),
            text.spec_bytes(),
        ),
{
    let ghost nothing = Seq::<u8>::empty();
    assert(output@ =~= old(output)@ + nothing);
    match config.mode() {
        Mode::GroupExtract => {
            let captured = match &config.group {
                Some(group) => match group_index(group.as_str()) {
                    Some(index) => engine_group_at(pattern, text, index),
                    None => engine_group_named(pattern, text, group.as_str()),
                },
                None => None,
            };
            match captured {
                Some(Some(span)) => {
                    let part = slice_str(text, span);
                    let shown = format_replacement(config, pattern, part);
                    write_match(config, filename, output, shown.as_str());
                    true
                },
                Some(None) => true,
                None => false,
            }
        },
        Mode::Invert => {
            let matched = engine_is_match(pattern, text);
            if !matched {
                write_match(config, filename, output, text);
            }
            !matched
        },
        Mode::FilenamesOnly => engine_is_match(pattern, text),
        Mode::QuietExistenceOnly => engine_is_match(pattern, text),
        Mode::Default { only_matches } => {
            if !engine_is_match(pattern, text) {
                false
            } else if only_matches {
                write_filename(config, filename, output);
                let spans = engine_find_spans(pattern, text);
                let ghost before = output@;
                write_spans(config, output, text, &spans);
                assert(output@ =~= old(output)@ + (filename_header(*config, opt_bytes(filename))
                    + spans_emitted(config.colors, text.spec_bytes(), spans@)));
                true
            } else {
                let shown = format_replacement(config, pattern, text);
                write_match(config, filename, output, shown.as_str());
                true
            }
        },
    }
}

/// The outcome for the unit `text`.
pub fn decide(
    config: &ModeConfig,
    pattern: &PatternSpec,
    filename: Option<&str>,
    text: &str,
) -> (outcome: MatchOutcome)
    ensures
        outcome.matched == unit_matched(*config, pattern@, text.spec_bytes()),
        outcome.emitted@ == unit_emitted(*config, pattern@, opt_bytes(filename), text.spec_bytes()),
{
    let mut emitted: Vec<u8> = Vec::new();
    let matched = process_text(config, pattern, filename, &mut emitted, text);
    assert(emitted@ =~= unit_emitted(*config, pattern@, opt_bytes(filename), text.spec_bytes()));
    MatchOutcome { matched, emitted }
}

} // verus!
