//! Global substitution, and what holds of it.

use vstd::prelude::*;
use vstd::string::*;
use vstd::utf8::*;
use crate::pattern::{
    engine_replace_all,
    regex_expansions,
    regex_find_spans,
    regex_is_match,
    replaced_all,
    PatternSpec,
    DOLLAR,
};
use crate::text::{same_bytes, span_bytes, substituted};

verus! {

/// What `replace` returns for `content`: `new_content` is `content` with
/// every match of `source` replaced by the expansion of `template`, and
/// `changed` says whether that differs from `content`. The two are compared
/// by value; matches are not counted.
pub open spec fn replace_result(
    source: Seq<char>,
    template: Seq<u8>,
    content: Seq<u8>,
    new_content: Seq<u8>,
    changed: bool,
) -> bool {
    &&& replaced_all(source, content, template, new_content)
    &&& changed == (new_content != content)
}

/// Replaces every match of `pattern` in `content` by `template`, in which
/// `$0`, `$1`, `$name` stand for capture groups. Returns the new content and
/// whether it differs from `content`.
pub fn replace(pattern: &PatternSpec, template: &str, content: &str) -> (r: (String, bool))
    ensures
        replace_result(
            pattern@,
            template.spec_bytes(),
            content.spec_bytes(),
            encode_utf8(r.0@),
            r.1,
        ),
        !regex_is_match(pattern@, content.spec_bytes()) ==> r.0@ == content@ && !r.1,
        r.1 == (r.0@ != content@),
{
    broadcast use encode_utf8_decode_utf8;

    let new_content = engine_replace_all(pattern, content, template);
    let changed = !same_bytes(new_content.as_str().as_bytes(), content.as_bytes());
    proof {
        assert(decode_utf8(encode_utf8(new_content@)) == new_content@);
        assert(decode_utf8(encode_utf8(content@)) == content@);
        if !regex_is_match(pattern@, content.spec_bytes()) {
            lemma_replace_without_match(
                pattern@,
                template.spec_bytes(),
                content.spec_bytes(),
                encode_utf8(new_content@),
                changed,
            );
        }
    }
    (new_content, changed)
}

/// Spans that lie in a text of length `len`, in order and without overlap.
spec fn spans_within(len: int, spans: Seq<(usize, usize)>) -> bool {
    &&& forall|i: int| 0 <= i < spans.len() ==> (#[trigger] spans[i]).0 <= spans[i].1 <= len
    &&& forall|i: int, j: int|
        0 <= i < j < spans.len() ==> (#[trigger] spans[i]).1 <= (#[trigger] spans[j]).0
}

/// Putting into each span the bytes that it holds already changes nothing.
proof fn lemma_substituted_same(
    text: Seq<u8>,
    spans: Seq<(usize, usize)>,
    inserts: Seq<Seq<u8>>,
)
    requires
        spans_within(text.len() as int, spans),
        inserts.len() == spans.len(),
        forall|k: int| 0 <= k < spans.len() ==> #[trigger] inserts[k] == span_bytes(text, spans[k]),
    ensures
        substituted(text, spans, inserts) == text,
    decreases spans.len(),
{
    if spans.len() > 0 {
        let last = spans.last();
        let head = text.subrange(0, last.0 as int);
        let n = spans.len() - 1;
        assert forall|k: int| 0 <= k < n implies #[trigger] inserts.drop_last()[k] == span_bytes(
            head,
            spans.drop_last()[k],
        ) by {
            assert(spans[k].1 <= spans[n].0);
            assert(inserts[k] == span_bytes(text, spans[k]));
            assert(span_bytes(head, spans[k]) =~= span_bytes(text, spans[k]));
        }
        assert(spans_within(head.len() as int, spans.drop_last())) by {
            assert forall|i: int| 0 <= i < n implies (#[trigger] spans.drop_last()[i]).0
                <= spans.drop_last()[i].1 <= head.len() by {
                assert(spans[i].1 <= spans[n].0);
            }
        }
        lemma_substituted_same(head, spans.drop_last(), inserts.drop_last());
        assert(inserts.last() == span_bytes(text, last));
        assert(head + span_bytes(text, last) + text.subrange(last.1 as int, text.len() as int)
            =~= text);
    }
}

/// Where the pattern does not occur in the content, `replace` returns the
/// content as it is and `false`, whatever the template.
pub proof fn lemma_replace_without_match(
    source: Seq<char>,
    template: Seq<u8>,
    content: Seq<u8>,
    new_content: Seq<u8>,
    changed: bool,
)
    requires
        replace_result(source, template, content, new_content, changed),
        !regex_is_match(source, content),
    ensures
        new_content == content,
        !changed,
{
}

/// Where every matched span holds the very bytes of the template, and the
/// template stands for itself at each match, `replace` returns `false`,
/// although there may be matches. A template without a `$` always stands
/// for itself; one with a `$` may expand to something else, and then the
/// content does change.
pub proof fn lemma_replace_by_same_text(
    source: Seq<char>,
    template: Seq<u8>,
    content: Seq<u8>,
    new_content: Seq<u8>,
    changed: bool,
)
    requires
        replace_result(source, template, content, new_content, changed),
        forall|k: int|
            0 <= k < regex_find_spans(source, content).len() ==> span_bytes(
                content,
                #[trigger] regex_find_spans(source, content)[k],
            ) == template,
        template.contains(DOLLAR) ==> forall|k: int|
            0 <= k < regex_expansions(source, content, template).len()
                ==> #[trigger] regex_expansions(source, content, template)[k] == template,
    ensures
        new_content == content,
        !changed,
{
    let spans = regex_find_spans(source, content);
    let inserts = regex_expansions(source, content, template);
    assert(spans_within(content.len() as int, spans));
    assert forall|k: int| 0 <= k < spans.len() implies #[trigger] inserts[k] == span_bytes(
        content,
        spans[k],
    ) by {
        assert(span_bytes(content, spans[k]) == template);
        assert(inserts[k] == template);
    }
    lemma_substituted_same(content, spans, inserts);
}

/// Replacing once more in a result in which the pattern no longer occurs
/// changes nothing. This holds of every template.
pub proof fn lemma_replace_again(
    source: Seq<char>,
    template: Seq<u8>,
    content: Seq<u8>,
    first: Seq<u8>,
    first_changed: bool,
    second: Seq<u8>,
    second_changed: bool,
)
    requires
        replace_result(source, template, content, first, first_changed),
        replace_result(source, template, first, second, second_changed),
        !regex_is_match(source, first),
    ensures
        second == first,
        !second_changed,
{
    lemma_replace_without_match(source, template, first, second, second_changed);
}

} // verus!
