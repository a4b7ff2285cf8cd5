//! What is written for a match: the file name in front, the text, a line
//! feed where the text has none, and the highlighting.

use vstd::prelude::*;
use vstd::string::*;
use vstd::utf8::*;
use crate::config::ModeConfig;
use crate::pattern::{
    around_match,
    engine_replace_all,
    frames_match,
    replaced_all,
    regex_expansions,
    regex_find_spans,
    PatternSpec,
    DOLLAR,
};
use crate::text::{
    append_str,
    newline_suffix,
    span_bytes,
    str_ends_with_newline,
    substituted,
    NEWLINE,
};

verus! {

/// The escape sequence that switches to bold red: `ESC [ 1 ; 3 1 m`.
pub open spec fn red_bold_prefix() -> Seq<u8> {
    seq![27u8, 91u8, 49u8, 59u8, 51u8, 49u8, 109u8]
}

/// The escape sequence that switches to purple: `ESC [ 3 5 m`.
pub open spec fn purple_prefix() -> Seq<u8> {
    seq![27u8, 91u8, 51u8, 53u8, 109u8]
}

/// The escape sequence that resets all styles: `ESC [ 0 m`.
pub open spec fn style_reset() -> Seq<u8> {
    seq![27u8, 91u8, 48u8, 109u8]
}

/// `text` highlighted as a match.
pub open spec fn red_bold(text: Seq<u8>) -> Seq<u8> {
    red_bold_prefix() + text + style_reset()
}

/// `text` highlighted as a file name.
pub open spec fn purple(text: Seq<u8>) -> Seq<u8> {
    purple_prefix() + text + style_reset()
}

/// The template that stands for the whole match, highlighted: `$0` in bold
/// red.
pub open spec fn highlight_template() -> Seq<u8> {
    red_bold(seq![DOLLAR, 48u8])
}

/// `text` with every match of `source` replaced by the expansion of
/// `template`.
pub open spec fn regex_replaced(source: Seq<char>, text: Seq<u8>, template: Seq<u8>) -> Seq<u8> {
    substituted(text, regex_find_spans(source, text), regex_expansions(source, text, template))
}

/// `Colour::Red.bold().paint(text)`, as a string: the text between the
/// escape sequence for bold red and the reset.
#[verifier::external_body]
pub(crate) fn paint_red_bold(text: &str) -> (r: String)
    ensures
        encode_utf8(r@) == red_bold(text.spec_bytes()),
{
    ansi_term::Colour::Red.bold().paint(text).to_string()
}

/// `Colour::Purple.paint(text)`, as a string: the text between the escape
/// sequence for purple and the reset.
#[verifier::external_body]
fn paint_purple(text: &str) -> (r: String)
    ensures
        encode_utf8(r@) == purple(text.spec_bytes()),
{
    ansi_term::Colour::Purple.paint(text).to_string()
}

/// What precedes the content of a file in the output. Nothing where file
/// names are suppressed or there is no file; else the name, highlighted
/// where colours are on, and then a line feed where only file names are
/// shown, `:` and a line feed where whole files are matched, `: ` before a
/// line.
pub open spec fn filename_header(config: ModeConfig, filename: Option<Seq<u8>>) -> Seq<u8> {
    if config.no_filenames || filename is None {
        Seq::<u8>::empty()
    } else {
        (if config.colors {
            purple(filename->0)
        } else {
            filename->0
        }) + (if config.filenames_only {
            seq![NEWLINE]
        } else if config.whole_files {
            seq![58u8, NEWLINE]
        } else {
            seq![58u8, 32u8]
        })
    }
}

/// A record: the header, `text`, and a line feed unless `text` ends in one.
pub open spec fn record(config: ModeConfig, filename: Option<Seq<u8>>, text: Seq<u8>) -> Seq<u8> {
    filename_header(config, filename) + text + newline_suffix(text)
}

/// `text` as it is shown in full: with every match highlighted in place
/// where colours are on.
pub open spec fn formatted(colors: bool, source: Seq<char>, text: Seq<u8>) -> Seq<u8> {
    if colors {
        regex_replaced(source, text, highlight_template())
    } else {
        text
    }
}

/// `text`, all of it a match, as it is shown.
pub open spec fn highlighted(colors: bool, text: Seq<u8>) -> Seq<u8> {
    if colors {
        red_bold(text)
    } else {
        text
    }
}

/// The bytes of an optional string.
pub open spec fn opt_bytes(s: Option<&str>) -> Option<Seq<u8>> {
    match s {
        Some(s) => Some(s.spec_bytes()),
        None => None,
    }
}

/// Ends the record whose text is `text`: appends a line feed to `output`
/// unless `text` ends in one already.
pub fn write_newline_if_replaced_text_ends_with_newline(output: &mut Vec<u8>, text: &str)
    ensures
        final(output)@ == old(output)@ + newline_suffix(text.spec_bytes()),
{
    if !str_ends_with_newline(text) {
        output.push(NEWLINE);
        assert(output@ =~= old(output)@ + seq![NEWLINE]);
    } else {
        assert(output@ =~= old(output)@ + Seq::<u8>::empty());
    }
}

/// Appends to `output` the header for `filename`.
pub fn write_filename(config: &ModeConfig, filename: Option<&str>, output: &mut Vec<u8>)
    ensures
        final(output)@ == old(output)@ + filename_header(*config, opt_bytes(filename)),
{
    if !config.no_filenames {
        if let Some(name) = filename {
            if config.colors {
                let painted = paint_purple(name);
                append_str(output, painted.as_str());
            } else {
                append_str(output, name);
            }
            if config.filenames_only {
                output.push(NEWLINE);
            } else if config.whole_files {
                output.push(58u8);
                output.push(NEWLINE);
            } else {
                output.push(58u8);
                output.push(32u8);
            }
            assert(output@ =~= old(output)@ + filename_header(*config, opt_bytes(filename)));
            return ;
        }
    }
    assert(output@ =~= old(output)@ + filename_header(*config, opt_bytes(filename)));
}

/// Appends to `output` the record for `text`: the header, the text, and a
/// line feed where the text has none at its end.
pub fn write_match(config: &ModeConfig, filename: Option<&str>, output: &mut Vec<u8>, text: &str)
    ensures
        final(output)@ == old(output)@ + record(*config, opt_bytes(filename), text.spec_bytes()),
{
    write_filename(config, filename, output);
    append_str(output, text);
    write_newline_if_replaced_text_ends_with_newline(output, text);
    assert(output@ =~= old(output)@ + record(*config, opt_bytes(filename), text.spec_bytes()));
}

/// `text` as it is shown in full. Where colours are on, the pattern is
/// applied to `text` and every match is replaced by itself, highlighted.
pub fn format_replacement(config: &ModeConfig, pattern: &PatternSpec, text: &str) -> (r: String)
    ensures
        encode_utf8(r@) == formatted(config.colors, pattern@, text.spec_bytes()),
        config.colors ==> replaced_all(
            pattern@,
            text.spec_bytes(),
            highlight_template(),
            encode_utf8(r@),
        ),
{
    if config.colors {
        let template = paint_red_bold("$0");
        proof {
            lemma_dollar_zero();
        }
        engine_replace_all(pattern, text, template.as_str())
    } else {
        String::from_str(text)
    }
}

/// `text`, all of it a match, as it is shown: highlighted where colours are
/// on.
pub fn format_whole(config: &ModeConfig, text: &str) -> (r: String)
    ensures
        encode_utf8(r@) == highlighted(config.colors, text.spec_bytes()),
{
    if config.colors {
        paint_red_bold(text)
    } else {
        String::from_str(text)
    }
}

/// Where colours are on, what is put in the place of each match is the
/// match itself between the escape sequence for bold red and the reset.
pub proof fn lemma_highlight_in_place(source: Seq<char>, text: Seq<u8>, result: Seq<u8>)
    requires
        replaced_all(source, text, highlight_template(), result),
    ensures
        result == formatted(true, source, text),
        forall|k: int|
            0 <= k < regex_find_spans(source, text).len() ==> #[trigger] regex_expansions(
                source,
                text,
                highlight_template(),
            )[k] == red_bold(span_bytes(text, regex_find_spans(source, text)[k])),
{
    let before = red_bold_prefix();
    let after = style_reset();
    assert(highlight_template() =~= around_match(before, after));
    assert(frames_match(before, after));
}

proof fn lemma_dollar_zero()
    ensures
        "$0".spec_bytes() == seq![DOLLAR, 48u8],
{
    broadcast use is_ascii_chars_encode_utf8;

    reveal_strlit("$0");
    assert("$0"@ =~= seq!['$', '0']);
    assert(is_ascii_chars("$0"@));
    assert("$0".spec_bytes() =~= seq![DOLLAR, 48u8]);
}

} // verus!
