//! The compiled pattern and the calls into the regular-expression engine.
//!
//! The engine is a black box. What it returns is named by the functions
//! without a body below; each takes the pattern's text and the haystack's
//! bytes. The private functions that make the calls are believed, not proved.

use vstd::prelude::*;
use vstd::string::*;
use vstd::utf8::*;
use crate::text::{span_bytes, span_in, spans_ordered, substituted};

verus! {

#[verifier::external_type_specification]
#[verifier::external_body]
pub struct ExRegex(regex::Regex);

#[verifier::external_type_specification]
#[verifier::external_body]
pub struct ExRegexError(regex::Error);

/// Whether the pattern `source` matches anywhere in `text`.
pub uninterp spec fn regex_is_match(source: Seq<char>, text: Seq<u8>) -> bool;

/// The byte ranges of the successive matches of `source` in `text`.
pub uninterp spec fn regex_find_spans(source: Seq<char>, text: Seq<u8>) -> Seq<(usize, usize)>;

/// The byte range that the capture group `index` took in the first match of
/// `source` in `text`, if there is a match and the group took part in it.
pub uninterp spec fn regex_group_at(source: Seq<char>, text: Seq<u8>, index: usize) -> Option<
    (usize, usize),
>;

/// The same for the capture group called `name`.
pub uninterp spec fn regex_group_named(source: Seq<char>, text: Seq<u8>, name: Seq<char>) -> Option<
    (usize, usize),
>;

/// For each successive match of `source` in `text`, what `template` expands
/// to: the text that a global substitution puts in the place of the match.
pub uninterp spec fn regex_expansions(source: Seq<char>, text: Seq<u8>, template: Seq<u8>) -> Seq<
    Seq<u8>,
>;

/// The byte that starts a reference to a capture group in a template.
pub const DOLLAR: u8 = 36;

/// A byte that the name of a capture group may go on with in a template: a
/// digit, a letter or `_`.
pub open spec fn is_name_byte(b: u8) -> bool {
    48 <= b <= 57 || 65 <= b <= 90 || 97 <= b <= 122 || b == 95
}

/// The template that puts `before` in front of the whole match and `after`
/// behind it: `$0` between the two.
pub open spec fn around_match(before: Seq<u8>, after: Seq<u8>) -> Seq<u8> {
    before + seq![DOLLAR, 48u8] + after
}

/// `before` and `after` leave the `$0` between them to stand for the whole
/// match: neither holds a `$`, and `after` does not go on with a name.
pub open spec fn frames_match(before: Seq<u8>, after: Seq<u8>) -> bool {
    &&& !before.contains(DOLLAR)
    &&& !after.contains(DOLLAR)
    &&& (after.len() == 0 || !is_name_byte(after[0]))
}

/// What a global substitution gives. `matched` is whether the pattern
/// matches at all, `spans` are its successive matches in `text`, and
/// `inserts` what `template` expands to for each of them: there is a match
/// exactly where there is a span, a template without a `$` expands to itself,
/// a template that frames `$0` expands to the match in that frame, and
/// `result` is `text` with each span replaced by its insert.
pub open spec fn replace_all_model(
    text: Seq<u8>,
    template: Seq<u8>,
    matched: bool,
    spans: Seq<(usize, usize)>,
    inserts: Seq<Seq<u8>>,
    result: Seq<u8>,
) -> bool {
    &&& spans_ordered(text, spans)
    &&& (spans.len() > 0) == matched
    &&& inserts.len() == spans.len()
    &&& !template.contains(DOLLAR) ==> forall|k: int|
        0 <= k < inserts.len() ==> #[trigger] inserts[k] == template
    &&& forall|before: Seq<u8>, after: Seq<u8>|
        template == #[trigger] around_match(before, after) && frames_match(before, after)
            ==> forall|k: int|
            0 <= k < inserts.len() ==> #[trigger] inserts[k] == before + span_bytes(text, spans[k])
                + after
    &&& result == substituted(text, spans, inserts)
}

/// `replace_all_model` for the pattern `source`.
pub open spec fn replaced_all(
    source: Seq<char>,
    text: Seq<u8>,
    template: Seq<u8>,
    result: Seq<u8>,
) -> bool {
    replace_all_model(
        text,
        template,
        regex_is_match(source, text),
        regex_find_spans(source, text),
        regex_expansions(source, text, template),
        result,
    )
}

/// The inline flags that precede a pattern.
#[derive(Clone, Copy, Debug)]
pub struct PatternFlags {
    pub ignore_case: bool,
    pub dot_matches_newline: bool,
    pub multiline: bool,
    pub extended: bool,
}

/// The letters of the flags that are set, in the order `i`, `s`, `m`, `x`.
pub open spec fn flag_letters(flags: PatternFlags) -> Seq<char> {
    (if flags.ignore_case { seq!['i'] } else { Seq::<char>::empty() })
        + (if flags.dot_matches_newline { seq!['s'] } else { Seq::<char>::empty() })
        + (if flags.multiline { seq!['m'] } else { Seq::<char>::empty() })
        + (if flags.extended { seq!['x'] } else { Seq::<char>::empty() })
}

/// The text that is compiled: `pattern` itself, or `(?` the flag letters `)`
/// and then `pattern` where a flag is set.
pub open spec fn inline_source(flags: PatternFlags, pattern: Seq<char>) -> Seq<char> {
    if flag_letters(flags).len() == 0 {
        pattern
    } else {
        seq!['(', '?'] + flag_letters(flags) + seq![')'] + pattern
    }
}

/// Why a pattern was refused.
#[derive(Debug)]
pub struct InvalidPattern {
    pub message: String,
}

/// A compiled pattern. `engine` is always what the engine compiled from
/// `source`: the fields are private and only `compile` builds the pair.
pub struct PatternSpec {
    source: String,
    engine: regex::Regex,
}

impl View for PatternSpec {
    type V = Seq<char>;

    closed spec fn view(&self) -> Seq<char> {
        self.source@
    }
}

/// `Regex::new` on `source`. Which sources compile is left open: the
/// engine's size limit depends on the machine.
#[verifier::external_body]
fn compile(source: String) -> (r: Result<PatternSpec, regex::Error>)
    ensures
        r matches Ok(p) ==> p@ == source@,
{
    match regex::Regex::new(source.as_str()) {
        Ok(engine) => Ok(PatternSpec { source, engine }),
        Err(e) => Err(e),
    }
}

/// The `Display` text of a `regex::Error`.
#[verifier::external_body]
fn error_text(e: &regex::Error) -> String {
    e.to_string()
}

/// `Regex::is_match`: whether the pattern matches anywhere in `text`.
#[verifier::external_body]
pub(crate) fn engine_is_match(p: &PatternSpec, text: &str) -> (b: bool)
    ensures
        b == regex_is_match(p@, text.spec_bytes()),
{
    p.engine.is_match(text)
}

/// `Regex::find_iter`, each `Match` as its `(start, end)`. The matches come
/// in order and do not overlap; each starts and ends between two characters
/// of `text`.
#[verifier::external_body]
pub(crate) fn engine_find_spans(p: &PatternSpec, text: &str) -> (r: Vec<(usize, usize)>)
    ensures
        r@ == regex_find_spans(p@, text.spec_bytes()),
        spans_ordered(text.spec_bytes(), r@),
{
    p.engine.find_iter(text).map(|m| (m.start(), m.end())).collect()
}

/// `Regex::captures`, then `Captures::get` with `index`. The outer `Option`
/// is `Some` exactly where the pattern matches; the inner one holds the
/// group's `(start, end)` where the group took part in the match.
#[verifier::external_body]
pub(crate) fn engine_group_at(p: &PatternSpec, text: &str, index: usize) -> (r: Option<
    Option<(usize, usize)>,
>)
    ensures
        r is Some == regex_is_match(p@, text.spec_bytes()),
        r matches Some(g) ==> g == regex_group_at(p@, text.spec_bytes(), index),
        r matches Some(Some(span)) ==> span_in(text.spec_bytes(), span),
{
    p.engine.captures(text).map(|c| c.get(index).map(|m| (m.start(), m.end())))
}

/// `Regex::captures`, then `Captures::name` with `name`; as `engine_group_at`.
#[verifier::external_body]
pub(crate) fn engine_group_named(p: &PatternSpec, text: &str, name: &str) -> (r: Option<
    Option<(usize, usize)>,
>)
    ensures
        r is Some == regex_is_match(p@, text.spec_bytes()),
        r matches Some(g) ==> g == regex_group_named(p@, text.spec_bytes(), name@),
        r matches Some(Some(span)) ==> span_in(text.spec_bytes(), span),
{
    p.engine.captures(text).map(|c| c.name(name).map(|m| (m.start(), m.end())))
}

/// `Regex::replace_all` with a string template: the matches are those of
/// `find_iter`, and each is replaced by the template's expansion. In the
/// expansion what stands before the first `$` is kept, `$0` that no
/// digit, letter or `_` follows is the text of the match, and what follows
/// without a `$` is kept.
#[verifier::external_body]
pub(crate) fn engine_replace_all(p: &PatternSpec, text: &str, template: &str) -> (r: String)
    ensures
        replace_all_model(
            text.spec_bytes(),
            template.spec_bytes(),
            regex_is_match(p@, text.spec_bytes()),
            regex_find_spans(p@, text.spec_bytes()),
            regex_expansions(p@, text.spec_bytes(), template.spec_bytes()),
            encode_utf8(r@),
        ),
{
    p.engine.replace_all(text, template).into_owned()
}

impl PatternSpec {
    /// Compiles `pattern` with `flags` written in front of it.
    pub fn new(pattern: &str, flags: &PatternFlags) -> (r: Result<PatternSpec, InvalidPattern>)
        ensures
            r matches Ok(p) ==> p@ == inline_source(*flags, pattern@),
    {
        let source = with_flags(pattern, flags);
        compiled(compile(source))
    }

    /// The text that was compiled.
    pub fn source(&self) -> (s: &str)
        ensures
            s@ == self@,
    {
        self.source.as_str()
    }
}

/// What `PatternSpec::new` returns for each outcome of the compilation.
pub fn compiled(outcome: Result<PatternSpec, regex::Error>) -> (r: Result<
    PatternSpec,
    InvalidPattern,
>)
    ensures
        outcome is Ok == r is Ok,
        outcome matches Ok(p) ==> r matches Ok(q) && q@ == p@,
{
    match outcome {
        Ok(p) => Ok(p),
        Err(e) => Err(InvalidPattern { message: error_text(&e) }),
    }
}

/// The text to compile for `pattern` under `flags`.
pub fn with_flags(pattern: &str, flags: &PatternFlags) -> (source: String)
    ensures
        source@ == inline_source(*flags, pattern@),
{
    if !flags.ignore_case && !flags.dot_matches_newline && !flags.multiline && !flags.extended {
        return String::from_str(pattern);
    }
    proof {
        reveal_strlit("(?");
        reveal_strlit("i");
        reveal_strlit("s");
        reveal_strlit("m");
        reveal_strlit("x");
        reveal_strlit(")");
    }
    let mut source = String::from_str("(?");
    if flags.ignore_case {
        source.append("i");
    }
    if flags.dot_matches_newline {
        source.append("s");
    }
    if flags.multiline {
        source.append("m");
    }
    if flags.extended {
        source.append("x");
    }
    assert(source@ =~= seq!['(', '?'] + flag_letters(*flags));
    source.append(")");
    source.append(pattern);
    assert(source@ =~= inline_source(*flags, pattern@));
    source
}

} // verus!
