//! The arguments of the program: those that the environment sets by
//! default, and behind them those of the command line.

use vstd::prelude::*;
use vstd::string::*;
use crate::group::{char_is_space, is_space};
use crate::text::chars_of;

verus! {

/// The record separator, U+001E, which some shells put between the words of
/// a list. It counts as a space.
pub const RECORD_SEPARATOR: u32 = 0x1E;

/// A character that parts two default arguments.
pub open spec fn is_gap(c: char) -> bool {
    is_space(c) || c as u32 == RECORD_SEPARATOR
}

/// How many characters `s` begins with that are no gap.
pub open spec fn word_len(s: Seq<char>) -> nat
    decreases s.len(),
{
    if s.len() > 0 && !is_gap(s[0]) {
        1 + word_len(s.drop_first())
    } else {
        0
    }
}

/// The words of `s`: its longest runs of characters that are no gap, in
/// order.
pub open spec fn words(s: Seq<char>) -> Seq<Seq<char>>
    decreases s.len(),
{
    if s.len() == 0 {
        Seq::<Seq<char>>::empty()
    } else if is_gap(s[0]) {
        words(s.drop_first())
    } else if 0 < word_len(s) <= s.len() {
        seq![s.take(word_len(s) as int)] + words(s.skip(word_len(s) as int))
    } else {
        Seq::<Seq<char>>::empty()
    }
}

/// What each string of a vector holds.
pub open spec fn texts(strings: Seq<String>) -> Seq<Seq<char>> {
    strings.map_values(|s: String| s@)
}

/// The arguments of a run: the words of the defaults, where there are
/// defaults, and then `args`.
pub open spec fn merged(defaults: Option<Seq<char>>, args: Seq<Seq<char>>) -> Seq<Seq<char>> {
    match defaults {
        Some(d) => words(d) + args,
        None => args,
    }
}

/// Whether `c` parts two default arguments.
pub fn char_is_gap(c: char) -> (b: bool)
    ensures
        b == is_gap(c),
{
    char_is_space(c) || c as u32 == RECORD_SEPARATOR
}

/// A run of characters that are no gap, with a gap or the end behind it, is
/// the word at its place.
proof fn lemma_word_found(s: Seq<char>, n: int)
    requires
        0 <= n <= s.len(),
        forall|k: int| 0 <= k < n ==> !is_gap(#[trigger] s[k]),
        n < s.len() ==> is_gap(s[n]),
    ensures
        word_len(s) == n,
    decreases n,
{
    if n > 0 {
        let rest = s.drop_first();
        assert forall|k: int| 0 <= k < n - 1 implies !is_gap(#[trigger] rest[k]) by {
            assert(rest[k] == s[k + 1]);
        }
        if n - 1 < rest.len() {
            assert(rest[n - 1] == s[n]);
        }
        lemma_word_found(rest, n - 1);
        assert(!is_gap(s[0]));
    }
}

/// The words of `line`, each as a string of its own.
pub fn split_words(line: &str) -> (found: Vec<String>)
    ensures
        texts(found@) == words(line@),
{
    let v = chars_of(line);
    let n = v.len();
    let mut found: Vec<String> = Vec::new();
    let mut i: usize = 0;
    assert(v@.skip(0) =~= v@);
    assert(texts(found@) =~= Seq::<Seq<char>>::empty());
    while i < n
        invariant
            n == v@.len(),
            v@ == line@,
            i <= n,
            texts(found@) + words(v@.skip(i as int)) == words(v@),
        decreases n - i,
    {
        let ghost rest = v@.skip(i as int);
        if char_is_gap(v[i]) {
            assert(rest[0] == v@[i as int]);
            assert(rest.drop_first() =~= v@.skip(i + 1));
            i += 1;
        } else {
            let start = i;
            while i < n && !char_is_gap(v[i])
                invariant
                    n == v@.len(),
                    start <= i <= n,
                    forall|k: int| start <= k < i ==> !is_gap(#[trigger] v@[k]),
                decreases n - i,
            {
                i += 1;
            }
            let word = line.substring_char(start, i);
            let ghost before = found@;
            found.push(String::from_str(word));
            proof {
                let len = i - start;
                assert forall|k: int| 0 <= k < len implies !is_gap(#[trigger] rest[k]) by {
                    assert(rest[k] == v@[start + k]);
                }
                if len < rest.len() {
                    assert(rest[len] == v@[i as int]);
                }
                lemma_word_found(rest, len);
                assert(rest[0] == v@[start as int]);
                assert(rest.take(len) =~= v@.subrange(start as int, i as int));
                assert(rest.skip(len) =~= v@.skip(i as int));
                assert(words(rest) == seq![rest.take(len)] + words(rest.skip(len)));
                assert(texts(found@) =~= texts(before).push(word@));
                assert(texts(found@) + words(v@.skip(i as int)) =~= texts(before) + words(rest));
            }
        }
    }
    assert(v@.skip(n as int) =~= Seq::<char>::empty());
    assert(texts(found@) + Seq::<Seq<char>>::empty() =~= texts(found@));
    found
}

/// Puts the words of `defaults` in front of `args`.
pub fn get_args(defaults: Option<&str>, args: Vec<String>) -> (all: Vec<String>)
    ensures
        texts(all@) == merged(
            match defaults {
                Some(d) => Some(d@),
                None => None,
            },
            texts(args@),
        ),
{
    match defaults {
        Some(line) => {
            let mut all = split_words(line);
            let ghost first = all@;
            let mut args = args;
            let ghost second = args@;
            all.append(&mut args);
            assert(texts(all@) =~= texts(first) + texts(second));
            all
        },
        None => args,
    }
}

} // verus!
