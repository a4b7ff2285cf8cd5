//! Small operations on UTF-8 text taken as bytes.

use vstd::prelude::*;
use vstd::string::*;
use vstd::utf8::*;

verus! {

/// The line feed, which ends a line and an emitted record.
pub const NEWLINE: u8 = 10;

/// A byte range `[start, end)` of `text` that begins and ends between two
/// characters.
pub open spec fn span_in(text: Seq<u8>, span: (usize, usize)) -> bool {
    &&& span.0 <= span.1 <= text.len()
    &&& is_char_boundary(text, span.0 as int)
    &&& is_char_boundary(text, span.1 as int)
}

/// The bytes of `text` that `span` covers.
pub open spec fn span_bytes(text: Seq<u8>, span: (usize, usize)) -> Seq<u8> {
    text.subrange(span.0 as int, span.1 as int)
}

/// Spans that lie in `text`, in the order of their position and without
/// overlap.
pub open spec fn spans_ordered(text: Seq<u8>, spans: Seq<(usize, usize)>) -> bool {
    &&& forall|i: int| 0 <= i < spans.len() ==> span_in(text, #[trigger] spans[i])
    &&& forall|i: int, j: int|
        0 <= i < j < spans.len() ==> (#[trigger] spans[i]).1 <= (#[trigger] spans[j]).0
}

/// `text` with the bytes of each span replaced by the insert of the same
/// index. Meant for ordered spans and as many inserts as spans.
pub open spec fn substituted(
    text: Seq<u8>,
    spans: Seq<(usize, usize)>,
    inserts: Seq<Seq<u8>>,
) -> Seq<u8>
    decreases spans.len(),
{
    if spans.len() == 0 {
        text
    } else {
        let last = spans.last();
        substituted(text.subrange(0, last.0 as int), spans.drop_last(), inserts.drop_last())
            + inserts.last() + text.subrange(last.1 as int, text.len() as int)
    }
}

/// `text` ends in a line feed.
pub open spec fn ends_with_newline(text: Seq<u8>) -> bool {
    text.len() > 0 && text.last() == NEWLINE
}

/// What has to follow `text` so that the record ends in exactly the line
/// feed that it has or gets.
pub open spec fn newline_suffix(text: Seq<u8>) -> Seq<u8> {
    if ends_with_newline(text) {
        Seq::<u8>::empty()
    } else {
        seq![NEWLINE]
    }
}

/// Appends `bytes` to `output`.
pub fn append_bytes(output: &mut Vec<u8>, bytes: &[u8])
    ensures
        final(output)@ == old(output)@ + bytes@,
{
    output.extend_from_slice(bytes);
    assert(output@ =~= old(output)@ + bytes@);
}

/// Appends the bytes of `text` to `output`.
pub fn append_str(output: &mut Vec<u8>, text: &str)
    ensures
        final(output)@ == old(output)@ + text.spec_bytes(),
{
    append_bytes(output, text.as_bytes());
}

/// A boundary of the whole text is a boundary of each prefix that reaches it.
pub proof fn lemma_boundary_in_prefix(text: Seq<u8>, start: int, end: int)
    requires
        valid_utf8(text),
        0 <= start <= end <= text.len(),
        is_char_boundary(text, start),
        is_char_boundary(text, end),
    ensures
        valid_utf8(text.subrange(0, end)),
        is_char_boundary(text.subrange(0, end), start),
{
    broadcast use {
        valid_utf8_split,
        is_char_boundary_start_end_of_seq,
        is_char_boundary_iff_not_is_continuation_byte,
    };

    let head = text.subrange(0, end);
    assert(valid_utf8(head));
    if start < end {
        assert(head[start] == text[start]);
        assert(is_char_boundary(text, start) <==> !is_continuation_byte(text[start]));
        assert(is_char_boundary(head, start) <==> !is_continuation_byte(head[start]));
    } else {
        assert(is_char_boundary(head, head.len() as int));
    }
}

/// The part of `text` that `span` covers.
pub fn slice_str<'a>(text: &'a str, span: (usize, usize)) -> (part: &'a str)
    requires
        span_in(text.spec_bytes(), span),
    ensures
        part.spec_bytes() == span_bytes(text.spec_bytes(), span),
{
    broadcast use encode_utf8_valid_utf8;

    proof {
        lemma_boundary_in_prefix(text.spec_bytes(), span.0 as int, span.1 as int);
    }
    let (head, _) = text.split_at(span.1);
    let (_, part) = head.split_at(span.0);
    assert(part.spec_bytes() =~= span_bytes(text.spec_bytes(), span));
    part
}

/// Whether `text` ends in a line feed.
pub fn str_ends_with_newline(text: &str) -> (b: bool)
    ensures
        b == ends_with_newline(text.spec_bytes()),
{
    let bytes = text.as_bytes();
    let n = bytes.len();
    n > 0 && bytes[n - 1] == NEWLINE
}

/// Whether `a` and `b` hold the same bytes.
pub fn same_bytes(a: &[u8], b: &[u8]) -> (same: bool)
    ensures
        same == (a@ == b@),
{
    if a.len() != b.len() {
        return false;
    }
    let n = a.len();
    let mut i: usize = 0;
    while i < n
        invariant
            n == a@.len(),
            n == b@.len(),
            i <= n,
            a@.take(i as int) == b@.take(i as int),
        decreases n - i,
    {
        if a[i] != b[i] {
            return false;
        }
        assert(a@.take(i + 1) =~= a@.take(i as int).push(a@[i as int]));
        assert(b@.take(i + 1) =~= b@.take(i as int).push(b@[i as int]));
        i += 1;
    }
    assert(a@.take(n as int) =~= a@);
    assert(b@.take(n as int) =~= b@);
    true
}

/// In valid UTF-8 a byte below 128 is a character of its own: the text can
/// be cut before it and behind it.
pub proof fn lemma_boundary_around_ascii(text: Seq<u8>, i: int)
    requires
        valid_utf8(text),
        0 <= i < text.len(),
        text[i] < 128,
    ensures
        is_char_boundary(text, i),
        is_char_boundary(text, i + 1),
{
    broadcast use {
        valid_utf8_split,
        is_char_boundary_start_end_of_seq,
        is_char_boundary_iff_not_is_continuation_byte,
    };

    assert(is_char_boundary(text, i) <==> !is_continuation_byte(text[i]));
    let rest = text.subrange(i, text.len() as int);
    assert(valid_utf8(rest));
    assert(rest[0] == text[i]);
    assert(is_char_boundary(rest, 1)) by {
        reveal_with_fuel(is_char_boundary, 2);
        reveal_with_fuel(valid_utf8, 2);
        assert(length_of_first_scalar(rest) == 1);
    }
    if i + 1 < text.len() {
        assert(rest[1] == text[i + 1]);
        assert(is_char_boundary(rest, 1) <==> !is_continuation_byte(rest[1]));
        assert(is_char_boundary(text, i + 1) <==> !is_continuation_byte(text[i + 1]));
    }
}

/// The characters of `s`.
pub fn chars_of(s: &str) -> (v: Vec<char>)
    ensures
        v@ == s@,
{
    let mut v: Vec<char> = Vec::new();
    for c in it: s.chars()
        invariant
            v@ == it.seq().take(it.index() as int),
            it.seq() == s@,
    {
        v.push(c);
    }
    v
}

} // verus!
