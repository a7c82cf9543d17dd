//! Splitting a string at every character of a set of delimiters.

use vstd::prelude::*;
use crate::text::{chars_of, extend_from, rows, strings_of, texts, trim, trimmed};

verus! {

/// The configuration of the delimiter splitter.
#[derive(Clone, Debug)]
pub struct SplitByCharsKwargs {
    /// The delimiters: every character of this string is one. Their order
    /// and repetitions mean nothing, and the empty string holds none.
    pub characters: String,
}

impl SplitByCharsKwargs {
    /// The configuration whose delimiters are the characters of
    /// `characters`.
    pub fn new(characters: String) -> (kwargs: SplitByCharsKwargs)
        ensures
            kwargs.characters@ == characters@,
    {
        SplitByCharsKwargs { characters }
    }
}

/// The number of characters of `s` before its first delimiter: the length of
/// `s` where it holds none.
pub open spec fn piece_len(s: Seq<char>, delimiters: Seq<char>) -> nat
    decreases s.len(),
{
    if s.len() == 0 || delimiters.contains(s[0]) {
        0
    } else {
        1 + piece_len(s.drop_first(), delimiters)
    }
}

/// The pieces that the delimiters cut `s` into, in order: what stands before
/// the first delimiter, then the pieces of what stands behind it. A string
/// without a delimiter is its own only piece, the empty string too. A piece
/// between two delimiters that touch is empty.
pub open spec fn pieces(s: Seq<char>, delimiters: Seq<char>) -> Seq<Seq<char>>
    decreases s.len(),
{
    let n = piece_len(s, delimiters) as int;
    if n >= s.len() {
        seq![s]
    } else {
        seq![s.take(n)] + pieces(s.skip(n + 1), delimiters)
    }
}

/// The pieces of `s`, each without the whitespace around it.
pub open spec fn trimmed_pieces(s: Seq<char>, delimiters: Seq<char>) -> Seq<Seq<char>> {
    pieces(s, delimiters).map_values(|p: Seq<char>| trimmed(p))
}

/// The number of delimiters in `s`.
pub open spec fn delimiter_count(s: Seq<char>, delimiters: Seq<char>) -> nat
    decreases s.len(),
{
    if s.len() == 0 {
        0
    } else if delimiters.contains(s[0]) {
        1 + delimiter_count(s.drop_first(), delimiters)
    } else {
        delimiter_count(s.drop_first(), delimiters)
    }
}

/// There is one more piece than there are delimiters in the string.
pub proof fn lemma_piece_count(s: Seq<char>, delimiters: Seq<char>)
    ensures
        pieces(s, delimiters).len() == delimiter_count(s, delimiters) + 1,
        trimmed_pieces(s, delimiters).len() == delimiter_count(s, delimiters) + 1,
    decreases s.len(),
{
    if s.len() > 0 {
        let t = s.drop_first();
        lemma_piece_count(t, delimiters);
        if delimiters.contains(s[0]) {
            assert(s.skip(1) =~= t);
        } else {
            let m = piece_len(t, delimiters) as int;
            if m < t.len() {
                assert(s.skip(m + 2) =~= t.skip(m + 1));
            }
        }
    }
}

/// Tells whether `c` is one of `delimiters`.
pub fn is_delimiter(delimiters: &Vec<char>, c: char) -> (r: bool)
    ensures
        r == delimiters@.contains(c),
{
    let mut k: usize = 0;
    while k < delimiters.len()
        invariant
            k <= delimiters.len(),
            forall|j: int| 0 <= j < k ==> delimiters@[j] != c,
        decreases delimiters.len() - k,
    {
        if delimiters[k] == c {
            return true;
        }
        k += 1;
    }
    false
}

/// The pieces that the delimiters cut `s` into, each without the whitespace
/// around it.
pub fn split_chars_on(s: &Vec<char>, delimiters: &Vec<char>) -> (out: Vec<Vec<char>>)
    ensures
        rows(out@) == trimmed_pieces(s@, delimiters@),
{
    let mut out: Vec<Vec<char>> = Vec::new();
    let mut start: usize = 0;
    let mut i: usize = 0;
    let ghost d = delimiters@;
    assert(s@.skip(0) =~= s@);
    assert(rows(out@) + trimmed_pieces(s@, d) =~= trimmed_pieces(s@, d));
    while i < s.len()
        invariant
            start <= i <= s.len(),
            d == delimiters@,
            trimmed_pieces(s@, d) == rows(out@) + trimmed_pieces(s@.skip(start as int), d),
            piece_len(s@.skip(start as int), d) == (i - start) + piece_len(s@.skip(i as int), d),
        decreases s.len() - i,
    {
        if is_delimiter(delimiters, s[i]) {
            let mut piece: Vec<char> = Vec::new();
            extend_from(&mut piece, s, start, i);
            let piece = trim(&piece);
            proof {
                let t = s@.skip(start as int);
                let n = (i - start) as int;
                assert(piece_len(s@.skip(i as int), d) == 0);
                assert(t.take(n) =~= s@.subrange(start as int, i as int));
                assert(t.skip(n + 1) =~= s@.skip(i + 1));
                assert(pieces(t, d) == seq![t.take(n)] + pieces(t.skip(n + 1), d));
                assert(trimmed_pieces(t, d) =~= seq![trimmed(t.take(n))] + trimmed_pieces(
                    s@.skip(i + 1),
                    d,
                ));
                assert(rows(out@.push(piece)) =~= rows(out@) + seq![piece@]);
            }
            out.push(piece);
            start = i + 1;
        } else {
            assert(s@.skip(i as int).drop_first() =~= s@.skip(i + 1));
        }
        i += 1;
    }
    let mut piece: Vec<char> = Vec::new();
    extend_from(&mut piece, s, start, i);
    let piece = trim(&piece);
    proof {
        let t = s@.skip(start as int);
        assert(piece_len(s@.skip(i as int), d) == 0);
        assert(t =~= s@.subrange(start as int, i as int));
        assert(pieces(t, d) == seq![t]);
        assert(trimmed_pieces(t, d) =~= seq![trimmed(t)]);
        assert(rows(out@.push(piece)) =~= rows(out@) + seq![piece@]);
    }
    out.push(piece);
    out
}

/// The pieces that the characters of `delimiters` cut `value` into, in
/// order, each without the whitespace around it.
///
/// There is one more piece than there are delimiters in `value`, so the
/// empty string gives one empty piece, and so does what stands between two
/// delimiters that touch. With no delimiter at all the one piece is `value`,
/// trimmed.
pub fn split_on_chars(value: &str, delimiters: &str) -> (out: Vec<String>)
    ensures
        texts(out@) == trimmed_pieces(value@, delimiters@),
{
    let chars = chars_of(value);
    let set = chars_of(delimiters);
    let parts = split_chars_on(&chars, &set);
    strings_of(&parts)
}

} // verus!
