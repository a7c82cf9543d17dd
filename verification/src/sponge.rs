//! Sponge case: every letter is made a capital or a small letter by the toss
//! of a fair coin.

use vstd::prelude::*;
use rand::rngs::ThreadRng;
use rand::Rng;
use crate::classify::{
    ascii, ascii_lower, ascii_text, ascii_upper, lowercase_mapping, lowercase_of,
    unicode_alphabetic, uppercase_mapping, uppercase_of,
};
use crate::text::{chars_of, extend_from, string_of};

verus! {

/// The generator of a thread, carried as it is.
#[verifier::external_type_specification]
#[verifier::external_body]
pub struct ExThreadRng(ThreadRng);

/// `rand::rng` hands out the generator of the calling thread.
pub assume_specification[ rand::rng ]() -> ThreadRng
;

/// `Rng::random_ratio` answers `true` with a chance of `numerator` in
/// `denominator`. Which answer comes is not said.
#[verifier::external_body]
pub(crate) fn random_ratio(generator: &mut ThreadRng, numerator: u32, denominator: u32) -> bool
    requires
        denominator > 0,
        numerator <= denominator,
{
    generator.random_ratio(numerator, denominator)
}

/// What a letter becomes under one toss: its uppercase mapping where the
/// coin shows `true`, else its lowercase mapping.
pub open spec fn sponge_letter(c: char, upper: bool) -> Seq<char> {
    if upper {
        uppercase_mapping(c)
    } else {
        lowercase_mapping(c)
    }
}

/// The number of letters in `s`.
pub open spec fn letter_count(s: Seq<char>) -> nat
    decreases s.len(),
{
    if s.len() == 0 {
        0
    } else if unicode_alphabetic(s.last()) {
        letter_count(s.drop_last()) + 1
    } else {
        letter_count(s.drop_last())
    }
}

/// What `s` becomes under the tosses `flips`, one for each of its letters in
/// order. A character that is no letter takes no toss and stays as it is.
pub open spec fn sponge_text(s: Seq<char>, flips: Seq<bool>) -> Seq<char>
    recommends
        flips.len() == letter_count(s),
    decreases s.len(),
{
    if s.len() == 0 {
        Seq::empty()
    } else if unicode_alphabetic(s.last()) {
        sponge_text(s.drop_last(), flips.drop_last()) + sponge_letter(s.last(), flips.last())
    } else {
        sponge_text(s.drop_last(), flips).push(s.last())
    }
}

/// Whether each letter of `s` has an uppercase and a lowercase mapping of
/// one character.
pub open spec fn single_cased(s: Seq<char>) -> bool {
    forall|i: int|
        0 <= i < s.len() && unicode_alphabetic(#[trigger] s[i]) ==> uppercase_mapping(s[i]).len()
            == 1 && lowercase_mapping(s[i]).len() == 1
}

/// Whether `out` is `s` but for the case of its ASCII letters: as long as
/// `s`, with each ASCII letter as a capital or a small letter and every
/// other character as it is.
pub open spec fn same_but_for_case(s: Seq<char>, out: Seq<char>) -> bool {
    &&& out.len() == s.len()
    &&& forall|i: int|
        0 <= i < s.len() ==> #[trigger] out[i] == ascii_upper(s[i]) || out[i] == ascii_lower(s[i])
}

/// A prefix of a text holds no more letters than the text.
pub proof fn lemma_letter_count_of_prefix(s: Seq<char>, n: int)
    requires
        0 <= n <= s.len(),
    ensures
        letter_count(s.take(n)) <= letter_count(s),
    decreases s.len(),
{
    if n < s.len() {
        assert(s.drop_last().take(n) =~= s.take(n));
        lemma_letter_count_of_prefix(s.drop_last(), n);
    } else {
        assert(s.take(n) =~= s);
    }
}

/// Sponge case changes nothing but case: where every letter of the text has
/// case mappings of one character, the result is as long as the text, each
/// letter has become its uppercase or its lowercase mapping, and every other
/// character stands where it stood.
pub proof fn lemma_sponge_text_keeps_shape(s: Seq<char>, flips: Seq<bool>)
    requires
        flips.len() == letter_count(s),
        single_cased(s),
    ensures
        sponge_text(s, flips).len() == s.len(),
        forall|i: int|
            0 <= i < s.len() && unicode_alphabetic(s[i]) ==> seq![#[trigger] sponge_text(s, flips)[i]]
                == uppercase_mapping(s[i]) || seq![sponge_text(s, flips)[i]] == lowercase_mapping(
                s[i],
            ),
        forall|i: int|
            0 <= i < s.len() && !unicode_alphabetic(s[i]) ==> #[trigger] sponge_text(s, flips)[i]
                == s[i],
    decreases s.len(),
{
    if s.len() > 0 {
        let head = s.drop_last();
        let c = s.last();
        let rest = if unicode_alphabetic(c) {
            flips.drop_last()
        } else {
            flips
        };
        assert forall|i: int| 0 <= i < head.len() && unicode_alphabetic(
            #[trigger] head[i],
        ) implies uppercase_mapping(head[i]).len() == 1 && lowercase_mapping(head[i]).len()
            == 1 by {
            assert(head[i] == s[i]);
        }
        lemma_sponge_text_keeps_shape(head, rest);
        let done = sponge_text(head, rest);
        let tail = if unicode_alphabetic(c) {
            sponge_letter(c, flips.last())
        } else {
            seq![c]
        };
        assert(sponge_text(s, flips) =~= done + tail);
        assert(tail.len() == 1);
        assert forall|i: int| 0 <= i < s.len() && unicode_alphabetic(s[i]) implies seq![
            #[trigger] sponge_text(s, flips)[i],
        ] == uppercase_mapping(s[i]) || seq![sponge_text(s, flips)[i]] == lowercase_mapping(
            s[i],
        ) by {
            if i < head.len() {
                assert(sponge_text(s, flips)[i] == done[i]);
                assert(head[i] == s[i]);
            } else {
                assert(sponge_text(s, flips)[i] == tail[0]);
                assert(seq![tail[0]] =~= tail);
            }
        }
        assert forall|i: int| 0 <= i < s.len() && !unicode_alphabetic(
            s[i],
        ) implies #[trigger] sponge_text(s, flips)[i] == s[i] by {
            if i < head.len() {
                assert(sponge_text(s, flips)[i] == done[i]);
                assert(head[i] == s[i]);
            }
        }
    }
}

/// Appends what the letter `c` becomes under the toss `upper`. An ASCII
/// letter becomes its capital or its small letter.
pub fn push_sponge_letter(out: &mut Vec<char>, c: char, upper: bool)
    ensures
        final(out)@ == old(out)@ + sponge_letter(c, upper),
        ascii(c) ==> final(out)@ == old(out)@.push(
            if upper {
                ascii_upper(c)
            } else {
                ascii_lower(c)
            },
        ),
{
    let cased: Vec<char> = if upper {
        uppercase_of(c)
    } else {
        lowercase_of(c)
    };
    extend_from(out, &cased, 0, cased.len());
    assert(cased@.subrange(0, cased@.len() as int) =~= cased@);
    assert(ascii(c) ==> cased@ =~= seq![cased@[0]]);
    assert(ascii(c) ==> out@ =~= old(out)@.push(cased@[0]));
}

/// Draws one toss of a fair coin for each letter of `chars`, in order.
fn draw_tosses(chars: &Vec<char>) -> (flips: Vec<bool>)
    ensures
        flips@.len() == letter_count(chars@),
{
    let mut generator = rand::rng();
    let mut flips: Vec<bool> = Vec::new();
    let mut i: usize = 0;
    assert(chars@.take(0) =~= Seq::<char>::empty());
    while i < chars.len()
        invariant
            i <= chars.len(),
            flips@.len() == letter_count(chars@.take(i as int)),
        decreases chars.len() - i,
    {
        assert(chars@.take(i + 1).drop_last() =~= chars@.take(i as int));
        if chars[i].is_alphabetic() {
            flips.push(random_ratio(&mut generator, 1, 2));
        }
        i += 1;
    }
    assert(chars@.take(i as int) =~= chars@);
    flips
}

/// The text of `chars` under the tosses `flips`: nothing where there are
/// more or fewer tosses than letters.
fn apply_tosses(chars: &Vec<char>, flips: &Vec<bool>) -> (out: Option<Vec<char>>)
    ensures
        out is Some <==> flips@.len() == letter_count(chars@),
        out is Some ==> out->0@ == sponge_text(chars@, flips@),
        out is Some && ascii_text(chars@) ==> same_but_for_case(chars@, out->0@),
{
    let mut out: Vec<char> = Vec::new();
    let mut i: usize = 0;
    let mut k: usize = 0;
    assert(chars@.take(0) =~= Seq::<char>::empty());
    assert(flips@.take(0) =~= Seq::<bool>::empty());
    while i < chars.len()
        invariant
            i <= chars.len(),
            k <= flips.len(),
            k == letter_count(chars@.take(i as int)),
            out@ == sponge_text(chars@.take(i as int), flips@.take(k as int)),
            ascii_text(chars@) ==> same_but_for_case(chars@.take(i as int), out@),
        decreases chars.len() - i,
    {
        let c: char = chars[i];
        let ghost before = out@;
        proof {
            assert(chars@.take(i + 1).drop_last() =~= chars@.take(i as int));
            lemma_letter_count_of_prefix(chars@, i + 1);
        }
        if c.is_alphabetic() {
            if k >= flips.len() {
                return None;
            }
            push_sponge_letter(&mut out, c, flips[k]);
            proof {
                assert(flips@.take(k + 1).drop_last() =~= flips@.take(k as int));
            }
            k += 1;
        } else {
            out.push(c);
        }
        proof {
            if ascii_text(chars@) {
                assert(ascii(chars@[i as int]));
                assert forall|j: int| 0 <= j < i + 1 implies #[trigger] out@[j] == ascii_upper(
                    chars@.take(i + 1)[j],
                ) || out@[j] == ascii_lower(chars@.take(i + 1)[j]) by {
                    if j < i {
                        assert(out@[j] == before[j]);
                        assert(chars@.take(i as int)[j] == chars@.take(i + 1)[j]);
                    }
                }
            }
        }
        i += 1;
    }
    assert(chars@.take(i as int) =~= chars@);
    if k != flips.len() {
        return None;
    }
    assert(flips@.take(k as int) =~= flips@);
    Some(out)
}

/// The text of `value` under the given tosses, one for each of its letters
/// in order. Nothing comes back where the tosses are more or fewer than the
/// letters. An ASCII text keeps its length and changes nothing but the case
/// of its letters.
pub fn sponge_case_with(value: &str, flips: &Vec<bool>) -> (out: Option<String>)
    ensures
        out is Some <==> flips@.len() == letter_count(value@),
        out is Some ==> out->0@ == sponge_text(value@, flips@),
        out is Some && ascii_text(value@) ==> same_but_for_case(value@, out->0@),
{
    let chars = chars_of(value);
    match apply_tosses(&chars, flips) {
        Some(out) => Some(string_of(&out)),
        None => None,
    }
}

/// The text of `value` with every letter made a capital or a small letter
/// by a fair coin, tossed once for each letter. Which text comes back is
/// open; it is the text under some tosses. An ASCII text keeps its length
/// and changes nothing but the case of its letters.
pub fn sponge_case(value: &str) -> (out: String)
    ensures
        exists|flips: Seq<bool>|
            flips.len() == letter_count(value@) && out@ == #[trigger] sponge_text(value@, flips),
        ascii_text(value@) ==> same_but_for_case(value@, out@),
{
    let chars = chars_of(value);
    let flips = draw_tosses(&chars);
    match apply_tosses(&chars, &flips) {
        Some(out) => string_of(&out),
        None => vstd::pervasive::unreached(),
    }
}

} // verus!
