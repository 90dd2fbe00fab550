//! Strings as sequences of characters.
//!
//! The view of a `str` or a `String` is its sequence of characters. This
//! module converts between strings and vectors of characters. It also holds
//! the two things that the crate takes on trust of the standard library's
//! strings, which Verus does not prove: what `String::push` does, and that
//! `str::to_uppercase` gives the same result for the same text.

use vstd::prelude::*;
use vstd::string::*;

verus! {

/// The texts that a sequence of strings holds, in order.
pub open spec fn texts(strings: Seq<String>) -> Seq<Seq<char>> {
    strings.map_values(|s: String| s@)
}

/// The upper-case form of `text`, as `str::to_uppercase` computes it. The
/// form is named here and not defined: it follows the Unicode case mapping,
/// which is a table, and no proof in this crate depends on what it holds.
pub uninterp spec fn uppercase_of(text: Seq<char>) -> Seq<char>;

/// Calls `str::to_uppercase`, which maps every character to its upper-case
/// equivalent under the Unicode case mapping. Taken on trust: the result
/// depends on the text alone, so that it can be named `uppercase_of(text)`.
/// Nothing else is claimed of it.
#[verifier::external_body]
pub(crate) fn uppercase(text: &str) -> (upper: String)
    ensures
        upper@ == uppercase_of(text@),
{
    text.to_uppercase()
}

/// Taken on trust of `String::push`: it appends the character to the end of
/// the string and leaves what the string held before as it was.
pub assume_specification[ String::push ](s: &mut String, c: char)
    ensures
        final(s)@ == old(s)@.push(c),
;

/// The characters of `s`, in order.
pub(crate) fn chars_of(s: &str) -> (chars: Vec<char>)
    ensures
        chars@ == s@,
{
    let mut chars: Vec<char> = Vec::new();
    for c in it: s.chars()
        invariant
            it.seq() == s@,
            chars@ == it.seq().take(it.index()),
    {
        chars.push(c);
    }
    chars
}

/// The string made of `chars[from..to]`.
pub(crate) fn string_of(chars: &Vec<char>, from: usize, to: usize) -> (s: String)
    requires
        from <= to <= chars.len(),
    ensures
        s@ == chars@.subrange(from as int, to as int),
{
    let mut s = String::new();
    let mut i: usize = from;
    while i < to
        invariant
            from <= i <= to <= chars.len(),
            s@ == chars@.subrange(from as int, i as int),
        decreases to - i,
    {
        s.push(chars[i]);
        i += 1;
    }
    s
}

/// Whether `chars` spells `word`.
pub(crate) fn spells(chars: &Vec<char>, word: &str) -> (same: bool)
    ensures
        same == (chars@ == word@),
{
    let mut i: usize = 0;
    for c in it: word.chars()
        invariant
            it.seq() == word@,
            i == it.index(),
            i <= chars.len(),
            chars@.take(i as int) == word@.take(i as int),
    {
        if i >= chars.len() || chars[i] != c {
            return false;
        }
        i += 1;
    }
    assert(word@.take(i as int) == word@);
    if i == chars.len() {
        assert(chars@.take(i as int) == chars@);
    }
    i == chars.len()
}

} // verus!
