//! Small helpers on strings: comparing, copying, and reading a number.

use vstd::prelude::*;
use vstd::string::*;

verus! {

/// The strings of `v` as sequences of characters.
pub open spec fn texts(v: Seq<String>) -> Seq<Seq<char>> {
    v.map_values(|s: String| s@)
}

/// The value of a decimal digit, or `None` for any other character.
pub open spec fn digit_value(c: char) -> Option<nat> {
    if '0' <= c <= '9' {
        Some((c as u32 - '0' as u32) as nat)
    } else {
        None
    }
}

/// The number that a non-empty sequence of decimal digits stands for, or
/// `None` where the sequence is empty or holds anything but digits.
pub open spec fn decimal_value(s: Seq<char>) -> Option<nat>
    decreases s.len(),
{
    if s.len() == 0 {
        None
    } else if s.len() == 1 {
        digit_value(s[0])
    } else {
        match (decimal_value(s.drop_last()), digit_value(s.last())) {
            (Some(v), Some(d)) => Some(v * 10 + d),
            _ => None,
        }
    }
}

/// What a text reads as a `u32`: decimal digits after an optional `+`, as
/// long as the number fits.
pub open spec fn parsed_u32(s: Seq<char>) -> Option<u32> {
    let digits = if s.len() > 0 && s[0] == '+' {
        s.subrange(1, s.len() as int)
    } else {
        s
    };
    fitting_u32(decimal_value(digits))
}

/// A number as a `u32`, where there is one and it fits.
pub open spec fn fitting_u32(value: Option<nat>) -> Option<u32> {
    match value {
        Some(v) => if v <= u32::MAX {
            Some(v as u32)
        } else {
            None
        },
        None => None,
    }
}

/// A sequence of digits that has outgrown a bound never comes back under
/// it, whatever follows.
proof fn lemma_decimal_grows(s: Seq<char>, n: int)
    requires
        0 < n <= s.len(),
        decimal_value(s) is Some,
    ensures
        decimal_value(s.subrange(0, n)) is Some,
        decimal_value(s.subrange(0, n))->0 <= decimal_value(s)->0,
    decreases s.len(),
{
    if n == s.len() {
        assert(s.subrange(0, n) =~= s);
    } else {
        assert(s.len() > 1);
        lemma_decimal_grows(s.drop_last(), n);
        assert(s.drop_last().subrange(0, n) =~= s.subrange(0, n));
    }
}

/// In a sequence that holds something other than a digit, no number can be
/// read.
proof fn lemma_decimal_needs_digits(s: Seq<char>, i: int)
    requires
        0 <= i < s.len(),
        digit_value(s[i]) is None,
    ensures
        decimal_value(s) is None,
    decreases s.len(),
{
    if s.len() > 1 && i < s.len() - 1 {
        lemma_decimal_needs_digits(s.drop_last(), i);
    }
}

/// Whether `text` and `other` hold the same characters.
pub fn same_text(text: &str, other: &str) -> (same: bool)
    ensures
        same == (text@ == other@),
{
    let a = text.to_owned();
    let b = other.to_owned();
    a == b
}

/// Reads `text` as a `u32`.
pub fn parse_u32(text: &str) -> (value: Option<u32>)
    ensures
        value == parsed_u32(text@),
{
    let len = text.unicode_len();
    if len == 0 {
        return None;
    }
    let start: usize = if text.get_char(0) == '+' { 1 } else { 0 };
    let ghost digits = text@.subrange(start as int, len as int);
    proof {
        if start == 0 {
            assert(digits =~= text@);
        }
    }
    if start == len {
        return None;
    }
    let mut value: u32 = 0;
    let mut i: usize = start;
    while i < len
        invariant
            start <= i <= len,
            len == text@.len(),
            start < len,
            digits == text@.subrange(start as int, len as int),
            parsed_u32(text@) == fitting_u32(decimal_value(digits)),
            i > start ==> decimal_value(digits.subrange(0, i - start)) == Some(value as nat),
            i == start ==> value == 0,
        decreases len - i,
    {
        let c = text.get_char(i);
        assert(c == digits[i - start]);
        if c < '0' || c > '9' {
            proof {
                lemma_decimal_needs_digits(digits, i - start);
            }
            return None;
        }
        let d: u32 = c as u32 - '0' as u32;
        let ghost upto = digits.subrange(0, i - start + 1);
        proof {
            assert(upto.last() == c);
            assert(upto.drop_last() =~= digits.subrange(0, i - start));
            assert(decimal_value(upto) == Some((value * 10 + d) as nat)) by {
                if i == start {
                    assert(upto.len() == 1);
                }
            }
        }
        if value > (u32::MAX - d) / 10 {
            proof {
                assert(value * 10 + d > u32::MAX);
                if decimal_value(digits) is Some {
                    lemma_decimal_grows(digits, i - start + 1);
                }
            }
            return None;
        }
        value = value * 10 + d;
        i = i + 1;
    }
    assert(digits.subrange(0, len - start) =~= digits);
    Some(value)
}

} // verus!
