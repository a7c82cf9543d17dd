//! Pig latin, word by word.
//!
//! A word is read by code points. Its leading consonants move behind the rest
//! of it and `ay` follows them; a word that begins with a vowel gets `way`.
//! One closing ASCII punctuation character stays at the end, and a word that
//! began with an ASCII capital begins with one again.

use vstd::prelude::*;
use crate::classify::{
    ascii_punctuation, ascii_upper, ascii_uppercase, is_ascii_punctuation, is_ascii_uppercase,
    is_vowel, to_ascii_upper, vowel,
};
use crate::text::{
    chars_of, extend_from, join_with_space, join_words, rows, split_words, string_of, words,
};

verus! {

/// The number of characters of `s` before its first vowel: the length of `s`
/// where it has no vowel.
pub open spec fn cluster_len(s: Seq<char>) -> nat
    decreases s.len(),
{
    if s.len() == 0 || vowel(s[0]) {
        0
    } else {
        1 + cluster_len(s.drop_first())
    }
}

/// `s` with its first character replaced by its ASCII capital.
pub open spec fn capitalized(s: Seq<char>) -> Seq<char> {
    if s.len() == 0 {
        s
    } else {
        s.update(0, ascii_upper(s[0]))
    }
}

/// The letters of a word rearranged, before any capital is restored: `way`
/// behind a word that begins with a vowel, else the leading consonants behind
/// the rest, and `ay` behind them.
pub open spec fn rearranged(w: Seq<char>) -> Seq<char> {
    let n = cluster_len(w) as int;
    if n == 0 {
        w + seq!['w', 'a', 'y']
    } else {
        w.skip(n) + w.take(n) + seq!['a', 'y']
    }
}

/// Pig latin of a word that carries no closing punctuation. The empty word
/// stays empty.
pub open spec fn pig_latin_content(w: Seq<char>) -> Seq<char> {
    if w.len() == 0 {
        w
    } else if ascii_uppercase(w[0]) {
        capitalized(rearranged(w))
    } else {
        rearranged(w)
    }
}

/// Pig latin of a word: where its last character is ASCII punctuation, that
/// of the word without it, and the character behind it.
pub open spec fn pig_latin_word_text(w: Seq<char>) -> Seq<char> {
    if w.len() > 0 && ascii_punctuation(w.last()) {
        pig_latin_content(w.drop_last()).push(w.last())
    } else {
        pig_latin_content(w)
    }
}

/// Pig latin of a text: that of each of its words, with one space between
/// each two. The whitespace of the text itself is not kept.
pub open spec fn pig_latin_text(s: Seq<char>) -> Seq<char> {
    join_with_space(words(s).map_values(|w: Seq<char>| pig_latin_word_text(w)))
}

/// Pig latin of the word that `word` holds.
pub fn pig_latin_chars(word: &Vec<char>) -> (out: Vec<char>)
    ensures
        out@ == pig_latin_word_text(word@),
{
    let len: usize = word.len();
    let mut out: Vec<char> = Vec::new();
    if len == 0 {
        return out;
    }
    let last: char = word[len - 1];
    let closing: bool = is_ascii_punctuation(last);
    let end: usize = if closing {
        len - 1
    } else {
        len
    };
    let ghost w = word@.take(end as int);
    assert(closing ==> w =~= word@.drop_last());
    assert(!closing ==> w =~= word@);
    if end > 0 {
        let mut n: usize = 0;
        assert(w.skip(0) =~= w);
        while n < end && !is_vowel(word[n])
            invariant
                n <= end <= word.len(),
                w == word@.take(end as int),
                cluster_len(w) == n + cluster_len(w.skip(n as int)),
            decreases end - n,
        {
            assert(w.skip(n as int).drop_first() =~= w.skip(n + 1));
            n += 1;
        }
        assert(cluster_len(w.skip(n as int)) == 0);
        if n == 0 {
            extend_from(&mut out, word, 0, end);
            out.push('w');
            out.push('a');
            out.push('y');
            assert(out@ =~= rearranged(w));
        } else {
            extend_from(&mut out, word, n, end);
            extend_from(&mut out, word, 0, n);
            out.push('a');
            out.push('y');
            assert(out@ =~= rearranged(w));
        }
        if is_ascii_uppercase(word[0]) {
            let first: char = to_ascii_upper(out[0]);
            out.set(0, first);
            assert(out@ =~= capitalized(rearranged(w)));
        }
    }
    assert(out@ == pig_latin_content(w));
    if closing {
        out.push(last);
    }
    out
}

/// Pig latin of one word.
///
/// The consonants that the word begins with, up to its first vowel, move
/// behind the rest and `ay` follows; a word without a vowel moves as a whole.
/// A word that begins with a vowel only gets `way`. A closing ASCII
/// punctuation character is set aside first and put back last. Where the
/// word began with an ASCII capital, the first character of the result is
/// made one, and nothing else changes case. The empty word, and a word that
/// is one punctuation character, come back as they are.
pub fn pig_latin_word(word: &str) -> (out: String)
    ensures
        out@ == pig_latin_word_text(word@),
{
    let chars = chars_of(word);
    let out = pig_latin_chars(&chars);
    string_of(&out)
}

/// Pig latin of a text: each whitespace-delimited word is taken by
/// itself, and the results are joined with single spaces.
pub fn pig_latin(value: &str) -> (out: String)
    ensures
        out@ == pig_latin_text(value@),
{
    let chars = chars_of(value);
    let parts = split_words(&chars);
    let mut rendered: Vec<Vec<char>> = Vec::new();
    let mut k: usize = 0;
    while k < parts.len()
        invariant
            k <= parts.len(),
            rendered@.len() == k,
            forall|j: int| 0 <= j < k ==> rendered@[j]@ == pig_latin_word_text(parts@[j]@),
        decreases parts.len() - k,
    {
        rendered.push(pig_latin_chars(&parts[k]));
        k += 1;
    }
    assert(rows(rendered@) =~= rows(parts@).map_values(|w: Seq<char>| pig_latin_word_text(w)));
    let joined = join_words(&rendered);
    string_of(&joined)
}

} // verus!
