//! Unsigned decimal literals.

use vstd::prelude::*;
use crate::strings::chars_of;

verus! {

/// Whether `c` is one of the digits `0` to `9`.
pub open spec fn is_digit(c: char) -> bool {
    '0' as u32 <= c as u32 <= '9' as u32
}

/// The number that the digit `c` stands for.
pub open spec fn digit_value(c: char) -> nat {
    (c as u32 - '0' as u32) as nat
}

/// Whether `s` holds digits only.
pub open spec fn all_digits(s: Seq<char>) -> bool {
    forall|i: int| 0 <= i < s.len() ==> is_digit(#[trigger] s[i])
}

/// The number that the digits `s` denote in base ten.
pub open spec fn decimal_value(s: Seq<char>) -> nat
    decreases s.len(),
{
    if s.len() == 0 {
        0
    } else {
        decimal_value(s.drop_last()) * 10 + digit_value(s.last())
    }
}

/// The digits of a literal: the literal itself, or what follows its plus sign.
pub open spec fn digits_of(s: Seq<char>) -> Seq<char> {
    if s.len() > 0 && s.first() == '+' {
        s.drop_first()
    } else {
        s
    }
}

/// The value of the literal `s`. A literal is an optional plus sign and then
/// one or more digits, whose value fits in 32 bits; leading zeros are allowed.
pub open spec fn spec_parse_u32(s: Seq<char>) -> Option<u32> {
    let digits = digits_of(s);
    if digits.len() > 0 && all_digits(digits) && decimal_value(digits) <= u32::MAX {
        Some(decimal_value(digits) as u32)
    } else {
        None
    }
}

/// A number is at least the number that any prefix of its digits denotes.
pub proof fn lemma_decimal_value_prefix(s: Seq<char>, n: int)
    requires
        0 <= n <= s.len(),
    ensures
        decimal_value(s.take(n)) <= decimal_value(s),
    decreases s.len() - n,
{
    if n == s.len() {
        assert(s.take(n) == s);
    } else {
        lemma_decimal_value_prefix(s, n + 1);
        assert(s.take(n + 1).drop_last() == s.take(n));
    }
}

/// Reads `text` as an unsigned 32-bit decimal literal.
pub fn parse_u32(text: &str) -> (value: Option<u32>)
    ensures
        value == spec_parse_u32(text@),
{
    let chars = chars_of(text);
    let first: usize = if chars.len() > 0 && chars[0] == '+' {
        1
    } else {
        0
    };
    if first == chars.len() {
        return None;
    }
    let ghost digits = digits_of(text@);
    let mut value: u32 = 0;
    let mut i: usize = first;
    while i < chars.len()
        invariant
            first <= i <= chars.len(),
            digits == chars@.skip(first as int),
            digits == digits_of(text@),
            digits.len() > 0,
            all_digits(digits.take(i - first)),
            value == decimal_value(digits.take(i - first)),
        decreases chars.len() - i,
    {
        let c = chars[i];
        assert(digits[i - first] == c);
        let code: u32 = c as u32;
        if code < '0' as u32 || code > '9' as u32 {
            return None;
        }
        let digit: u32 = code - '0' as u32;
        proof {
            assert(digits.take(i - first + 1).drop_last() == digits.take(i - first));
            lemma_decimal_value_prefix(digits, i - first + 1);
        }
        if value > (u32::MAX - digit) / 10 {
            return None;
        }
        value = value * 10 + digit;
        i += 1;
    }
    assert(digits.take(i - first) == digits);
    Some(value)
}

} // verus!
