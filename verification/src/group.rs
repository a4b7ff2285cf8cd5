//! How a capture group is designated: by its index where the designator is
//! a number, by its name otherwise.

use vstd::prelude::*;
use crate::text::chars_of;

verus! {

/// White space as Unicode defines it.
pub open spec fn is_space(c: char) -> bool {
    let n = c as u32;
    ||| 9 <= n <= 13
    ||| n == 0x20
    ||| n == 0x85
    ||| n == 0xA0
    ||| n == 0x1680
    ||| 0x2000 <= n <= 0x200A
    ||| n == 0x2028
    ||| n == 0x2029
    ||| n == 0x202F
    ||| n == 0x205F
    ||| n == 0x3000
}

/// A decimal digit, `0` to `9`.
pub open spec fn is_digit(c: char) -> bool {
    48 <= c as u32 <= 57
}

/// Every character of `s` is a decimal digit.
pub open spec fn all_digits(s: Seq<char>) -> bool {
    forall|i: int| 0 <= i < s.len() ==> is_digit(#[trigger] s[i])
}

/// How many characters of white space `s` begins with.
pub open spec fn leading_spaces(s: Seq<char>) -> nat
    decreases s.len(),
{
    if s.len() > 0 && is_space(s[0]) {
        1 + leading_spaces(s.drop_first())
    } else {
        0
    }
}

/// How many characters of white space `s` ends with.
pub open spec fn trailing_spaces(s: Seq<char>) -> nat
    decreases s.len(),
{
    if s.len() > 0 && is_space(s.last()) {
        1 + trailing_spaces(s.drop_last())
    } else {
        0
    }
}

/// `s` without the white space around it.
pub open spec fn trimmed(s: Seq<char>) -> Seq<char> {
    if leading_spaces(s) == s.len() {
        Seq::<char>::empty()
    } else {
        s.subrange(leading_spaces(s) as int, s.len() - trailing_spaces(s))
    }
}

/// The number that the decimal digits `s` write.
pub open spec fn decimal(s: Seq<char>) -> nat
    decreases s.len(),
{
    if s.len() == 0 {
        0
    } else {
        decimal(s.drop_last()) * 10 + (s.last() as u32 - 48) as nat
    }
}

/// The index that `group` designates: `group` without the white space around
/// it is an optional `+` and one or more decimal digits, and the number fits
/// the machine's word. Otherwise `group` is a name.
pub open spec fn parse_index(group: Seq<char>) -> Option<usize> {
    let t = trimmed(group);
    let d = if t.len() > 0 && t[0] == '+' {
        t.drop_first()
    } else {
        t
    };
    if d.len() > 0 && all_digits(d) && decimal(d) <= usize::MAX {
        Some(decimal(d) as usize)
    } else {
        None
    }
}

/// Whether `c` is white space.
pub fn char_is_space(c: char) -> (b: bool)
    ensures
        b == is_space(c),
{
    let n: u32 = c as u32;
    (9 <= n && n <= 13) || n == 0x20 || n == 0x85 || n == 0xA0 || n == 0x1680 || (0x2000 <= n && n
        <= 0x200A) || n == 0x2028 || n == 0x2029 || n == 0x202F || n == 0x205F || n == 0x3000
}

proof fn lemma_leading_step(s: Seq<char>, i: int)
    requires
        0 <= i < s.len(),
        is_space(s[i]),
    ensures
        leading_spaces(s.skip(i)) == 1 + leading_spaces(s.skip(i + 1)),
{
    assert(s.skip(i).drop_first() =~= s.skip(i + 1));
}

proof fn lemma_trailing_step(s: Seq<char>, j: int)
    requires
        0 < j <= s.len(),
        is_space(s[j - 1]),
    ensures
        trailing_spaces(s.take(j)) == 1 + trailing_spaces(s.take(j - 1)),
{
    assert(s.take(j).drop_last() =~= s.take(j - 1));
}

proof fn lemma_decimal_grows(s: Seq<char>, k: int)
    requires
        0 <= k <= s.len(),
        all_digits(s),
    ensures
        decimal(s.take(k)) <= decimal(s),
    decreases s.len() - k,
{
    if k < s.len() {
        lemma_decimal_grows(s, k + 1);
        assert(s.take(k + 1).drop_last() =~= s.take(k));
        assert(is_digit(s[k]));
    } else {
        assert(s.take(k) =~= s);
    }
}

/// Reads `group` as the index of a capture group.
pub fn group_index(group: &str) -> (r: Option<usize>)
    ensures
        r == parse_index(group@),
{
    let ghost wanted = parse_index(group@);
    let v = chars_of(group);
    let n = v.len();
    let mut i: usize = 0;
    assert(v@.skip(0) =~= v@);
    while i < n && char_is_space(v[i])
        invariant
            n == v@.len(),
            i <= n,
            leading_spaces(v@) == i + leading_spaces(v@.skip(i as int)),
        decreases n - i,
    {
        proof {
            lemma_leading_step(v@, i as int);
        }
        i += 1;
    }
    assert(leading_spaces(v@) == i) by {
        if i < n {
            assert(v@.skip(i as int)[0] == v@[i as int]);
        }
    }
    if i == n {
        return None;
    }
    let mut j: usize = n;
    assert(v@.take(n as int) =~= v@);
    while j > i + 1 && char_is_space(v[j - 1])
        invariant
            n == v@.len(),
            i < j <= n,
            !is_space(v@[i as int]),
            trailing_spaces(v@) == (n - j) + trailing_spaces(v@.take(j as int)),
        decreases j,
    {
        proof {
            lemma_trailing_step(v@, j as int);
        }
        j -= 1;
    }
    assert(trailing_spaces(v@) == n - j) by {
        assert(v@.take(j as int).last() == v@[j - 1]);
    }
    let ghost t = v@.subrange(i as int, j as int);
    assert(t == trimmed(group@));
    let mut k: usize = i;
    if v[k] == '+' {
        k += 1;
    }
    let ghost d = v@.subrange(k as int, j as int);
    assert(d =~= if t.len() > 0 && t[0] == '+' {
        t.drop_first()
    } else {
        t
    });
    if k == j {
        return None;
    }
    let start = k;
    let mut value: usize = 0;
    assert(d.take(0) =~= Seq::<char>::empty());
    while k < j
        invariant
            n == v@.len(),
            start <= k <= j <= n,
            d == v@.subrange(start as int, j as int),
            wanted == parse_index(group@),
            wanted == if all_digits(d) && decimal(d) <= usize::MAX {
                Some(decimal(d) as usize)
            } else {
                None::<usize>
            },
            all_digits(d.take(k - start)),
            value == decimal(d.take(k - start)),
        decreases j - k,
    {
        let c = v[k];
        let code: u32 = c as u32;
        assert(d[k - start] == c);
        if code < 48 || code > 57 {
            assert(!is_digit(d[k - start]));
            assert(wanted is None);
            return None;
        }
        let digit: usize = (code - 48) as usize;
        proof {
            assert(d.take(k - start + 1).drop_last() =~= d.take(k - start));
            assert(d.take(k - start + 1).last() == c);
            assert forall|m: int| 0 <= m < k - start + 1 implies is_digit(
                #[trigger] d.take(k - start + 1)[m],
            ) by {
                if m < k - start {
                    assert(d.take(k - start + 1)[m] == d.take(k - start)[m]);
                }
            }
        }
        let next = match value.checked_mul(10) {
            Some(tens) => tens.checked_add(digit),
            None => None,
        };
        match next {
            Some(sum) => {
                value = sum;
            },
            None => {
                proof {
                    if all_digits(d) {
                        lemma_decimal_grows(d, k - start + 1);
                    }
                }
                assert(wanted is None);
                return None;
            },
        }
        k += 1;
    }
    assert(d.take(k - start) =~= d);
    assert(wanted == Some(value));
    Some(value)
}

} // verus!
