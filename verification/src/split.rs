//! Cutting content into the units that are matched: the lines, or the whole.

use vstd::prelude::*;
use vstd::string::*;
use vstd::utf8::*;
use crate::text::{ends_with_newline, lemma_boundary_around_ascii, slice_str, NEWLINE};

verus! {

/// A unit of text: a part of some content, where it lies in that content,
/// and whether the content has a line feed at its end.
pub struct TextUnit<'a> {
    pub text: &'a str,
    pub start: usize,
    pub end: usize,
    pub newline: bool,
}

/// Where a unit lies, and its tag.
pub struct UnitSpan {
    pub start: int,
    pub end: int,
    pub newline: bool,
}

impl<'a> View for TextUnit<'a> {
    type V = UnitSpan;

    open spec fn view(&self) -> UnitSpan {
        UnitSpan { start: self.start as int, end: self.end as int, newline: self.newline }
    }
}

/// The position of the first line feed at or after `from`, or the length of
/// `content` where there is none.
pub open spec fn next_newline(content: Seq<u8>, from: int) -> int
    decreases content.len() - from,
{
    if from >= content.len() {
        content.len() as int
    } else if content[from] == NEWLINE {
        from
    } else {
        next_newline(content, from + 1)
    }
}

/// The lines of `content` from position `from` on. A line ends before the
/// next line feed, which is no part of it, or at the end of the content; the
/// line after it begins behind the line feed. Content that ends in a line
/// feed has no empty line after it.
pub open spec fn line_units(content: Seq<u8>, from: int) -> Seq<UnitSpan>
    decreases content.len() - from,
{
    let end = next_newline(content, from);
    if from < 0 || from >= content.len() {
        Seq::<UnitSpan>::empty()
    } else if from <= end < content.len() {
        seq![UnitSpan { start: from, end: end, newline: true }] + line_units(content, end + 1)
    } else {
        seq![UnitSpan { start: from, end: content.len() as int, newline: false }]
    }
}

/// The units of `content`: one that spans all of it, tagged with whether it
/// ends in a line feed, or its lines, each tagged with whether a line feed
/// follows it.
pub open spec fn units_of(content: Seq<u8>, whole_file: bool) -> Seq<UnitSpan> {
    if whole_file {
        seq![
            UnitSpan {
                start: 0,
                end: content.len() as int,
                newline: ends_with_newline(content),
            },
        ]
    } else {
        line_units(content, 0)
    }
}

/// The bytes that a unit stands for in the content: its text, and for a line
/// the line feed that follows it.
pub open spec fn unit_bytes(content: Seq<u8>, unit: UnitSpan, whole_file: bool) -> Seq<u8> {
    content.subrange(unit.start, unit.end) + (if unit.newline && !whole_file {
        seq![NEWLINE]
    } else {
        Seq::<u8>::empty()
    })
}

/// The units joined again.
pub open spec fn rejoined(content: Seq<u8>, units: Seq<UnitSpan>, whole_file: bool) -> Seq<u8>
    decreases units.len(),
{
    if units.len() == 0 {
        Seq::<u8>::empty()
    } else {
        unit_bytes(content, units[0], whole_file) + rejoined(
            content,
            units.drop_first(),
            whole_file,
        )
    }
}

/// The spans of the units of a vector.
pub open spec fn spans_of(units: Seq<TextUnit<'_>>) -> Seq<UnitSpan> {
    units.map_values(|u: TextUnit<'_>| u@)
}

/// `next_newline` lies between `from` and the end of the content, at a line
/// feed if before the end, and there is no line feed before it.
proof fn lemma_next_newline(content: Seq<u8>, from: int)
    requires
        0 <= from <= content.len(),
    ensures
        from <= next_newline(content, from) <= content.len(),
        next_newline(content, from) < content.len() ==> content[next_newline(content, from)]
            == NEWLINE,
        forall|k: int| from <= k < next_newline(content, from) ==> content[k] != NEWLINE,
    decreases content.len() - from,
{
    if from < content.len() && content[from] != NEWLINE {
        lemma_next_newline(content, from + 1);
    }
}

proof fn lemma_lines_rejoin(content: Seq<u8>, from: int)
    requires
        0 <= from <= content.len(),
    ensures
        rejoined(content, line_units(content, from), false) == content.subrange(
            from,
            content.len() as int,
        ),
    decreases content.len() - from,
{
    let units = line_units(content, from);
    let end = next_newline(content, from);
    lemma_next_newline(content, from);
    if from >= content.len() {
        assert(content.subrange(from, content.len() as int) =~= Seq::<u8>::empty());
    } else if end < content.len() {
        lemma_lines_rejoin(content, end + 1);
        assert(units.drop_first() =~= line_units(content, end + 1));
        assert(unit_bytes(content, units[0], false) =~= content.subrange(from, end + 1));
        assert(content.subrange(from, end + 1) + content.subrange(end + 1, content.len() as int)
            =~= content.subrange(from, content.len() as int));
    } else {
        assert(units.drop_first() =~= Seq::<UnitSpan>::empty());
        assert(rejoined(content, units.drop_first(), false) =~= Seq::<u8>::empty());
        assert(unit_bytes(content, units[0], false) =~= content.subrange(
            from,
            content.len() as int,
        ));
    }
}

/// Splitting and joining again gives the content back, byte for byte, the
/// line feed at its end or its absence included. This holds for lines as it
/// does for the whole.
pub proof fn lemma_split_rejoin(content: Seq<u8>, whole_file: bool)
    ensures
        rejoined(content, units_of(content, whole_file), whole_file) == content,
{
    if whole_file {
        let units = units_of(content, true);
        assert(units.drop_first() =~= Seq::<UnitSpan>::empty());
        assert(rejoined(content, units.drop_first(), true) =~= Seq::<u8>::empty());
        assert(unit_bytes(content, units[0], true) =~= content);
    } else {
        lemma_lines_rejoin(content, 0);
        assert(content.subrange(0, content.len() as int) =~= content);
    }
}

/// The units of `content`, in order.
pub fn split<'a>(content: &'a str, whole_file: bool) -> (units: Vec<TextUnit<'a>>)
    ensures
        spans_of(units@) == units_of(content.spec_bytes(), whole_file),
        forall|i: int|
            0 <= i < units@.len() ==> (#[trigger] units@[i]).start <= units@[i].end
                <= content.spec_bytes().len(),
        forall|i: int|
            0 <= i < units@.len() ==> (#[trigger] units@[i]).text.spec_bytes()
                == content.spec_bytes().subrange(units@[i].start as int, units@[i].end as int),
{
    broadcast use {encode_utf8_valid_utf8, is_char_boundary_start_end_of_seq};

    let bytes = content.as_bytes();
    let n = bytes.len();
    let ghost b = content.spec_bytes();
    let mut units: Vec<TextUnit<'a>> = Vec::new();
    if whole_file {
        let newline = n > 0 && bytes[n - 1] == NEWLINE;
        units.push(TextUnit { text: content, start: 0, end: n, newline });
        assert(spans_of(units@) =~= units_of(b, true));
        assert(b.subrange(0, n as int) =~= b);
        return units;
    }
    let mut start: usize = 0;
    assert(spans_of(units@) =~= Seq::<UnitSpan>::empty());
    while start < n
        invariant
            b == content.spec_bytes(),
            bytes@ == b,
            n == b.len(),
            valid_utf8(b),
            start <= n,
            is_char_boundary(b, start as int),
            spans_of(units@) + line_units(b, start as int) == line_units(b, 0),
            forall|i: int|
                0 <= i < units@.len() ==> (#[trigger] units@[i]).start <= units@[i].end <= n,
            forall|i: int|
                0 <= i < units@.len() ==> (#[trigger] units@[i]).text.spec_bytes() == b.subrange(
                    units@[i].start as int,
                    units@[i].end as int,
                ),
        decreases n - start,
    {
        let mut end: usize = start;
        while end < n && bytes[end] != NEWLINE
            invariant
                bytes@ == b,
                n == b.len(),
                start <= end <= n,
                next_newline(b, start as int) == next_newline(b, end as int),
            decreases n - end,
        {
            end += 1;
        }
        let newline = end < n;
        proof {
            if newline {
                lemma_boundary_around_ascii(b, end as int);
            } else {
                is_char_boundary_start_end_of_seq(b);
            }
        }
        let text = slice_str(content, (start, end));
        let ghost before = units@;
        let ghost rest = line_units(b, start as int);
        units.push(TextUnit { text, start, end, newline });
        let next = if newline {
            end + 1
        } else {
            end
        };
        proof {
            let unit = UnitSpan { start: start as int, end: end as int, newline };
            assert(spans_of(units@) =~= spans_of(before).push(unit));
            if newline {
                assert(rest == seq![unit] + line_units(b, next as int));
            } else {
                assert(rest == seq![unit]);
                assert(line_units(b, next as int) =~= Seq::<UnitSpan>::empty());
            }
            assert(spans_of(units@) + line_units(b, next as int) =~= spans_of(before) + rest);
        }
        start = next;
    }
    assert(line_units(b, start as int) =~= Seq::<UnitSpan>::empty());
    assert(spans_of(units@) =~= spans_of(units@) + Seq::<UnitSpan>::empty());
    units
}

} // verus!
