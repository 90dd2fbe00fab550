//! Text handling: splitting a document into lines, trimming a line, and
//! splitting it into tokens.
//!
//! A text is modelled as its sequence of characters, `Seq<char>`. The
//! functions `split`, `trim` and `lines` say what the pieces, the trimmed form
//! and the lines of a text are; `split_text`, `trim_text` and `split_lines`
//! compute them, and the proof functions at the end state what follows from
//! the definitions.

use vstd::prelude::*;
use crate::strings::{chars_of, string_of, texts};

verus! {

/// Index of the first `c` in `s`, or `s.len()` where `s` holds none.
pub open spec fn first_index_of(s: Seq<char>, c: char) -> int
    decreases s.len(),
{
    if s.len() == 0 || s[0] == c {
        0
    } else {
        1 + first_index_of(s.drop_first(), c)
    }
}

/// The pieces of `s` between the occurrences of `sep`. There is one piece
/// more than there are separators; a piece is empty where two separators are
/// adjacent, or where one stands at either end.
pub open spec fn split(s: Seq<char>, sep: char) -> Seq<Seq<char>>
    decreases s.len(),
{
    let i = first_index_of(s, sep);
    if 0 <= i < s.len() {
        seq![s.take(i)] + split(s.skip(i + 1), sep)
    } else {
        seq![s]
    }
}

/// Whether `s` holds no `c`.
pub open spec fn free_of(s: Seq<char>, c: char) -> bool {
    forall|i: int| 0 <= i < s.len() ==> s[i] != c
}

/// The pieces with one `sep` between each two neighbours.
pub open spec fn join(pieces: Seq<Seq<char>>, sep: char) -> Seq<char>
    decreases pieces.len(),
{
    if pieces.len() == 0 {
        Seq::empty()
    } else if pieces.len() == 1 {
        pieces[0]
    } else {
        pieces[0] + seq![sep] + join(pieces.drop_first(), sep)
    }
}

/// Whether `c` is whitespace as Unicode defines it: the characters marked
/// `White_Space`.
pub open spec fn spec_is_whitespace(c: char) -> bool {
    let n = c as u32;
    ||| 0x09 <= n <= 0x0d
    ||| n == 0x20
    ||| n == 0x85
    ||| n == 0xa0
    ||| n == 0x1680
    ||| 0x2000 <= n <= 0x200a
    ||| n == 0x2028
    ||| n == 0x2029
    ||| n == 0x202f
    ||| n == 0x205f
    ||| n == 0x3000
}

/// `s` without its leading whitespace.
pub open spec fn trim_start(s: Seq<char>) -> Seq<char>
    decreases s.len(),
{
    if s.len() > 0 && is_whitespace(s.first()) {
        trim_start(s.drop_first())
    } else {
        s
    }
}

/// `s` without its trailing whitespace.
pub open spec fn trim_end(s: Seq<char>) -> Seq<char>
    decreases s.len(),
{
    if s.len() > 0 && is_whitespace(s.last()) {
        trim_end(s.drop_last())
    } else {
        s
    }
}

/// `s` without its leading and trailing whitespace.
pub open spec fn trim(s: Seq<char>) -> Seq<char> {
    trim_end(trim_start(s))
}

/// `line` without one carriage return at its end, if it has one.
pub open spec fn strip_carriage_return(line: Seq<char>) -> Seq<char> {
    if line.len() > 0 && line.last() == '\r' {
        line.drop_last()
    } else {
        line
    }
}

/// The lines of `s`. A line ends at a line feed, or at a carriage return
/// directly followed by a line feed; neither belongs to the line. What follows
/// the last line feed is a line of its own unless it is empty, and there a
/// carriage return stays.
pub open spec fn lines(s: Seq<char>) -> Seq<Seq<char>>
    decreases s.len(),
{
    if s.len() == 0 {
        Seq::empty()
    } else {
        let i = first_index_of(s, '\n');
        if 0 <= i < s.len() {
            seq![strip_carriage_return(s.take(i))] + lines(s.skip(i + 1))
        } else {
            seq![s]
        }
    }
}

/// Whether `c` is whitespace as Unicode defines it: the characters marked
/// `White_Space`.
#[verifier::when_used_as_spec(spec_is_whitespace)]
pub fn is_whitespace(c: char) -> (b: bool)
    ensures
        b == spec_is_whitespace(c),
{
    let n: u32 = c as u32;
    (0x09 <= n && n <= 0x0d) || n == 0x20 || n == 0x85 || n == 0xa0 || n == 0x1680 || (0x2000 <= n
        && n <= 0x200a) || n == 0x2028 || n == 0x2029 || n == 0x202f || n == 0x205f || n == 0x3000
}

/// Splits `text` at every `sep`.
pub fn split_text(text: &str, sep: char) -> (pieces: Vec<String>)
    ensures
        texts(pieces@) == split(text@, sep),
        pieces.len() >= 1,
{
    let chars = chars_of(text);
    let mut pieces: Vec<String> = Vec::new();
    let mut start: usize = 0;
    let mut i: usize = 0;
    assert(chars@.skip(0) == chars@);
    while i < chars.len()
        invariant
            start <= i <= chars.len(),
            chars@ == text@,
            forall|j: int| start <= j < i ==> chars@[j] != sep,
            split(text@, sep) == texts(pieces@) + split(chars@.skip(start as int), sep),
        decreases chars.len() - i,
    {
        if chars[i] == sep {
            let piece = string_of(&chars, start, i);
            proof {
                let rest = chars@.skip(start as int);
                lemma_first_index_of_is(rest, sep, i - start);
                assert(rest.take(i - start) == piece@);
                assert(rest.skip(i - start + 1) == chars@.skip(i + 1));
            }
            pieces.push(piece);
            start = i + 1;
        }
        i += 1;
    }
    let piece = string_of(&chars, start, i);
    proof {
        let rest = chars@.skip(start as int);
        lemma_first_index_of_is(rest, sep, rest.len() as int);
    }
    pieces.push(piece);
    pieces
}

/// Removes leading and trailing whitespace.
pub fn trim_text(text: &str) -> (trimmed: String)
    ensures
        trimmed@ == trim(text@),
{
    let chars = chars_of(text);
    let mut start: usize = 0;
    assert(chars@.skip(0) == chars@);
    while start < chars.len() && is_whitespace(chars[start])
        invariant
            start <= chars.len(),
            trim_start(chars@) == trim_start(chars@.skip(start as int)),
        decreases chars.len() - start,
    {
        assert(chars@.skip(start as int).drop_first() == chars@.skip(start + 1));
        start += 1;
    }
    let ghost kept = chars@.skip(start as int);
    let mut end: usize = chars.len();
    assert(kept.take(end - start) == kept);
    while end > start && is_whitespace(chars[end - 1])
        invariant
            start <= end <= chars.len(),
            kept == chars@.skip(start as int),
            trim_end(kept) == trim_end(kept.take(end - start)),
        decreases end,
    {
        assert(kept.take(end - start).drop_last() == kept.take(end - start - 1));
        end -= 1;
    }
    string_of(&chars, start, end)
}

/// Splits `text` into its lines.
pub fn split_lines(text: &str) -> (found: Vec<String>)
    ensures
        texts(found@) == lines(text@),
{
    let chars = chars_of(text);
    let mut found: Vec<String> = Vec::new();
    let mut start: usize = 0;
    let mut i: usize = 0;
    assert(chars@.skip(0) == chars@);
    while i < chars.len()
        invariant
            start <= i <= chars.len(),
            forall|j: int| start <= j < i ==> chars@[j] != '\n',
            lines(chars@) == texts(found@) + lines(chars@.skip(start as int)),
        decreases chars.len() - i,
    {
        if chars[i] == '\n' {
            let end: usize = if start < i && chars[i - 1] == '\r' {
                i - 1
            } else {
                i
            };
            let line = string_of(&chars, start, end);
            proof {
                let rest = chars@.skip(start as int);
                lemma_first_index_of_is(rest, '\n', i - start);
                assert(strip_carriage_return(rest.take(i - start)) == line@);
                assert(rest.skip(i - start + 1) == chars@.skip(i + 1));
            }
            found.push(line);
            start = i + 1;
        }
        i += 1;
    }
    if start < i {
        let line = string_of(&chars, start, i);
        proof {
            let rest = chars@.skip(start as int);
            lemma_first_index_of_is(rest, '\n', rest.len() as int);
        }
        found.push(line);
    }
    found
}

/// What `first_index_of` returns: the place of the first `c`.
pub proof fn lemma_first_index_of(s: Seq<char>, c: char)
    ensures
        0 <= first_index_of(s, c) <= s.len(),
        first_index_of(s, c) < s.len() ==> s[first_index_of(s, c)] == c,
        forall|j: int| 0 <= j < first_index_of(s, c) ==> s[j] != c,
    decreases s.len(),
{
    if s.len() == 0 || s[0] == c {
    } else {
        let rest = s.drop_first();
        lemma_first_index_of(rest, c);
        assert forall|j: int| 0 <= j < first_index_of(s, c) implies s[j] != c by {
            if j > 0 {
                assert(s[j] == rest[j - 1]);
            }
        }
    }
}

/// An index with no `c` before it, which is the end of `s` or holds `c`, is
/// the one that `first_index_of` returns.
pub proof fn lemma_first_index_of_is(s: Seq<char>, c: char, k: int)
    requires
        0 <= k <= s.len(),
        forall|j: int| 0 <= j < k ==> s[j] != c,
        k < s.len() ==> s[k] == c,
    ensures
        first_index_of(s, c) == k,
{
    lemma_first_index_of(s, c);
}

/// Splitting gives at least one piece, and no piece holds the separator.
pub proof fn lemma_split_pieces(s: Seq<char>, sep: char)
    ensures
        split(s, sep).len() >= 1,
        forall|k: int| 0 <= k < split(s, sep).len() ==> free_of(#[trigger] split(s, sep)[k], sep),
    decreases s.len(),
{
    lemma_first_index_of(s, sep);
    let i = first_index_of(s, sep);
    if i < s.len() {
        lemma_split_pieces(s.skip(i + 1), sep);
    }
}

/// A text without the separator is one piece: itself.
pub proof fn lemma_split_single(s: Seq<char>, sep: char)
    requires
        free_of(s, sep),
    ensures
        split(s, sep) == seq![s],
{
    lemma_first_index_of_is(s, sep, s.len() as int);
}

/// Joining the pieces of a text gives the text back.
pub proof fn lemma_join_split(s: Seq<char>, sep: char)
    ensures
        join(split(s, sep), sep) == s,
    decreases s.len(),
{
    lemma_first_index_of(s, sep);
    let i = first_index_of(s, sep);
    if i < s.len() {
        let rest = split(s.skip(i + 1), sep);
        let pieces = split(s, sep);
        lemma_split_pieces(s.skip(i + 1), sep);
        lemma_join_split(s.skip(i + 1), sep);
        assert(pieces.drop_first() == rest);
    }
}

/// Splitting what was joined gives the pieces back, where there is at least
/// one piece and none holds the separator.
pub proof fn lemma_split_join(pieces: Seq<Seq<char>>, sep: char)
    requires
        pieces.len() >= 1,
        forall|k: int| 0 <= k < pieces.len() ==> free_of(#[trigger] pieces[k], sep),
    ensures
        split(join(pieces, sep), sep) == pieces,
    decreases pieces.len(),
{
    if pieces.len() == 1 {
        lemma_split_single(pieces[0], sep);
    } else {
        let rest = pieces.drop_first();
        let joined = join(pieces, sep);
        let n = pieces[0].len() as int;
        assert forall|k: int| 0 <= k < rest.len() implies free_of(#[trigger] rest[k], sep) by {
            assert(rest[k] == pieces[k + 1]);
        }
        lemma_split_join(rest, sep);
        lemma_first_index_of_is(joined, sep, n);
        assert(joined.take(n) == pieces[0]);
        assert(joined.skip(n + 1) == join(rest, sep));
    }
}

/// What trimming removes and what it leaves: the result is the part of `s`
/// between the two returned indices, everything outside that part is
/// whitespace, and the part neither starts nor ends with whitespace.
pub proof fn lemma_trim(s: Seq<char>) -> (bounds: (int, int))
    ensures
        0 <= bounds.0 <= bounds.1 <= s.len(),
        trim(s) == s.subrange(bounds.0, bounds.1),
        forall|i: int| 0 <= i < bounds.0 ==> is_whitespace(#[trigger] s[i]),
        forall|i: int| bounds.1 <= i < s.len() ==> is_whitespace(#[trigger] s[i]),
        trim(s).len() > 0 ==> !is_whitespace(trim(s).first()) && !is_whitespace(trim(s).last()),
{
    let from = lemma_trim_start(s);
    let kept = s.skip(from);
    let to = lemma_trim_end(kept);
    assert forall|i: int| from + to <= i < s.len() implies is_whitespace(#[trigger] s[i]) by {
        assert(s[i] == kept[i - from]);
    }
    (from, from + to)
}

/// Trimming the start removes the first `n` characters, all whitespace, and
/// what is left does not start with whitespace.
pub proof fn lemma_trim_start(s: Seq<char>) -> (n: int)
    ensures
        0 <= n <= s.len(),
        trim_start(s) == s.skip(n),
        forall|i: int| 0 <= i < n ==> is_whitespace(#[trigger] s[i]),
        n < s.len() ==> !is_whitespace(s[n]),
    decreases s.len(),
{
    if s.len() > 0 && is_whitespace(s.first()) {
        let rest = s.drop_first();
        let m = lemma_trim_start(rest);
        assert forall|i: int| 0 <= i < m + 1 implies is_whitespace(#[trigger] s[i]) by {
            if i > 0 {
                assert(s[i] == rest[i - 1]);
            }
        }
        m + 1
    } else {
        0
    }
}

/// Trimming the end keeps the first `n` characters; the others are all
/// whitespace, and what is kept does not end with whitespace.
pub proof fn lemma_trim_end(s: Seq<char>) -> (n: int)
    ensures
        0 <= n <= s.len(),
        trim_end(s) == s.take(n),
        forall|i: int| n <= i < s.len() ==> is_whitespace(#[trigger] s[i]),
        n > 0 ==> !is_whitespace(s[n - 1]),
    decreases s.len(),
{
    if s.len() > 0 && is_whitespace(s.last()) {
        let front = s.drop_last();
        let m = lemma_trim_end(front);
        assert forall|i: int| m <= i < s.len() implies is_whitespace(#[trigger] s[i]) by {
            if i < front.len() {
                assert(s[i] == front[i]);
            }
        }
        m
    } else {
        s.len() as int
    }
}

/// A text that neither starts nor ends with whitespace is its own trimmed
/// form.
pub proof fn lemma_trim_fixed(s: Seq<char>)
    requires
        s.len() > 0 ==> !is_whitespace(s.first()) && !is_whitespace(s.last()),
    ensures
        trim(s) == s,
{
}

/// Trimming twice is trimming once.
pub proof fn lemma_trim_idempotent(s: Seq<char>)
    ensures
        trim(trim(s)) == trim(s),
{
    let _ = lemma_trim(s);
    lemma_trim_fixed(trim(s));
}

/// No line holds a line feed.
pub proof fn lemma_lines_free_of_line_feed(s: Seq<char>)
    ensures
        forall|k: int| 0 <= k < lines(s).len() ==> free_of(#[trigger] lines(s)[k], '\n'),
    decreases s.len(),
{
    if s.len() > 0 {
        lemma_first_index_of(s, '\n');
        let i = first_index_of(s, '\n');
        if i < s.len() {
            let rest = lines(s.skip(i + 1));
            lemma_lines_free_of_line_feed(s.skip(i + 1));
            assert forall|k: int| 0 <= k < lines(s).len() implies free_of(
                #[trigger] lines(s)[k],
                '\n',
            ) by {
                if k > 0 {
                    assert(lines(s)[k] == rest[k - 1]);
                }
            }
        }
    }
}

} // verus!
