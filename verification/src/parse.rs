//! Turning one line of typed text into a guess: trim surrounding
//! whitespace, then read an unsigned decimal number. Any other shape of
//! input — empty, a stray character, a sign, a fraction, or a number
//! too large for `u32` — is a parse failure.

use vstd::prelude::*;
use vstd::string::StrSliceExecFns;
use crate::digits::digit_of;
use crate::digits::digits_value;
use crate::digits::decimal_of;
use crate::digits::is_digit_char;
use crate::digits::lemma_decimal_of_digits;
use crate::digits::lemma_decimal_of_value;
use crate::digits::lemma_digits_value_prefix;
use crate::digits::lemma_digits_value_step;

verus! {

/// True of the ASCII whitespace characters that trimming removes.
pub open spec fn is_space_char(c: char) -> bool {
    c == ' ' || c == '\t' || c == '\n' || c == '\r' || c == '\u{b}' || c == '\u{c}'
}

/// `s` without its leading whitespace.
pub open spec fn drop_leading_spaces(s: Seq<char>) -> Seq<char>
    decreases s.len(),
{
    if s.len() > 0 && is_space_char(s.first()) {
        drop_leading_spaces(s.drop_first())
    } else {
        s
    }
}

/// `s` without its trailing whitespace.
pub open spec fn drop_trailing_spaces(s: Seq<char>) -> Seq<char>
    decreases s.len(),
{
    if s.len() > 0 && is_space_char(s.last()) {
        drop_trailing_spaces(s.drop_last())
    } else {
        s
    }
}

/// `s` without leading and trailing whitespace.
pub open spec fn trimmed(s: Seq<char>) -> Seq<char> {
    drop_trailing_spaces(drop_leading_spaces(s))
}

/// The guess that a line of text denotes: after trimming, a non-empty
/// run of ASCII digits whose value fits in `u32`; `None` otherwise.
pub open spec fn parsed(s: Seq<char>) -> Option<u32> {
    let t = trimmed(s);
    if t.len() == 0 {
        None
    } else if exists|i: int| 0 <= i < t.len() && !is_digit_char(t[i]) {
        None
    } else if digits_value(t) > u32::MAX {
        None
    } else {
        Some(digits_value(t) as u32)
    }
}

/// Skipping any all-whitespace prefix does not change what leading-trim
/// leaves.
proof fn lemma_drop_leading_skip(s: Seq<char>, i: int)
    requires
        0 <= i <= s.len(),
        forall|j: int| 0 <= j < i ==> is_space_char(s[j]),
    ensures
        drop_leading_spaces(s) == drop_leading_spaces(s.subrange(i, s.len() as int)),
    decreases i,
{
    if i == 0 {
        assert(s.subrange(0, s.len() as int) =~= s);
    } else {
        assert(is_space_char(s.first()));
        let rest = s.drop_first();
        assert(rest =~= s.subrange(1, s.len() as int));
        lemma_drop_leading_skip(rest, i - 1);
        assert(rest.subrange(i - 1, rest.len() as int) =~= s.subrange(i, s.len() as int));
    }
}

/// Dropping any all-whitespace suffix does not change what
/// trailing-trim leaves.
proof fn lemma_drop_trailing_skip(s: Seq<char>, i: int)
    requires
        0 <= i <= s.len(),
        forall|j: int| i <= j < s.len() ==> is_space_char(s[j]),
    ensures
        drop_trailing_spaces(s) == drop_trailing_spaces(s.subrange(0, i)),
    decreases s.len() - i,
{
    if i == s.len() {
        assert(s.subrange(0, i) =~= s);
    } else {
        assert(is_space_char(s.last()));
        let rest = s.drop_last();
        assert(rest =~= s.subrange(0, s.len() - 1));
        lemma_drop_trailing_skip(rest, i);
        assert(rest.subrange(0, i) =~= s.subrange(0, i));
    }
}

/// A string that neither starts nor ends with whitespace trims to
/// itself.
proof fn lemma_trim_fixed(s: Seq<char>)
    requires
        s.len() == 0 || (!is_space_char(s.first()) && !is_space_char(s.last())),
    ensures
        trimmed(s) == s,
{
}

/// Parse a line of input as a guess.
///
/// Returns `Some` exactly when the line, after trimming ASCII
/// whitespace, is a non-empty run of decimal digits denoting a value
/// that fits in `u32`; the value returned is that number.
pub fn parse_guess(line: &str) -> (r: Option<u32>)
    ensures
        r == parsed(line@),
{
    let ghost s = line@;
    let n = line.unicode_len();
    let mut start: usize = 0;
    loop
        invariant
            s == line@,
            n == s.len(),
            start <= n,
            forall|j: int| 0 <= j < start ==> is_space_char(s[j]),
        ensures
            start <= n,
            forall|j: int| 0 <= j < start ==> is_space_char(s[j]),
            start == n || !is_space_char(s[start as int]),
        decreases n - start,
    {
        if start == n {
            break;
        }
        if !is_space(line.get_char(start)) {
            break;
        }
        start = start + 1;
    }
    let mut end: usize = n;
    loop
        invariant
            s == line@,
            n == s.len(),
            start <= end <= n,
            forall|j: int| end <= j < n ==> is_space_char(s[j]),
        ensures
            start <= end <= n,
            forall|j: int| end <= j < n ==> is_space_char(s[j]),
            end == start || !is_space_char(s[end - 1]),
        decreases end,
    {
        if end == start {
            break;
        }
        if !is_space(line.get_char(end - 1)) {
            break;
        }
        end = end - 1;
    }
    let ghost t = s.subrange(start as int, end as int);
    proof {
        lemma_drop_leading_skip(s, start as int);
        let u = s.subrange(start as int, n as int);
        assert(drop_leading_spaces(u) == u);
        lemma_drop_trailing_skip(u, end - start);
        assert(u.subrange(0, end - start) =~= t);
        assert(drop_trailing_spaces(t) == t);
        assert(trimmed(s) == t);
    }
    if start == end {
        return None;
    }
    let mut acc: u32 = 0;
    let mut i: usize = start;
    while i < end
        invariant
            s == line@,
            n == s.len(),
            0 <= start <= i <= end <= n,
            start < end,
            t == s.subrange(start as int, end as int),
            trimmed(s) == t,
            forall|j: int| start <= j < i ==> is_digit_char(s[j]),
            acc == digits_value(t.subrange(0, i - start)),
        decreases end - i,
    {
        let c = line.get_char(i);
        match digit_of(c) {
            None => {
                proof {
                    assert(t[i - start] == s[i as int]);
                    assert(!is_digit_char(t[i - start]));
                }
                return None;
            },
            Some(d) => {
                let next: u64 = (acc as u64) * 10 + (d as u64);
                proof {
                    lemma_digits_value_step(t, i - start);
                    assert(t[i - start] == s[i as int]);
                    assert(digits_value(t.subrange(0, i - start + 1)) == next);
                }
                if next > u32::MAX as u64 {
                    proof {
                        lemma_digits_value_prefix(t, i - start + 1);
                        assert(digits_value(t) > u32::MAX);
                    }
                    return None;
                }
                acc = next as u32;
            },
        }
        i = i + 1;
    }
    proof {
        assert(t.subrange(0, end - start) =~= t);
        assert(forall|j: int| 0 <= j < t.len() ==> is_digit_char(#[trigger] t[j]));
    }
    Some(acc)
}

/// Whether trimming removes this character.
fn is_space(c: char) -> (r: bool)
    ensures
        r == is_space_char(c),
{
    c == ' ' || c == '\t' || c == '\n' || c == '\r' || c == '\u{b}' || c == '\u{c}'
}

/// Round trip: the canonical decimal text of any number parses back to
/// exactly that number, whatever the number is. In particular, typing
/// the decimal text of the hidden target always counts as guessing the
/// target itself.
pub proof fn lemma_decimal_round_trip(g: u32)
    ensures
        parsed(decimal_of(g as nat)) == Some(g),
{
    let d = decimal_of(g as nat);
    lemma_decimal_of_digits(g as nat);
    lemma_decimal_of_value(g as nat);
    assert(is_digit_char(d.first()) && is_digit_char(d.last()));
    assert(!is_space_char(d.first()) && !is_space_char(d.last()));
    lemma_trim_fixed(d);
}

} // verus!
