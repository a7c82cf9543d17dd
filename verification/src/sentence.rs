//! Sentence case: one pass over the text that capitalizes the first letter of
//! each sentence and makes every other letter small.

use vstd::prelude::*;
use crate::classify::{
    ascii, ascii_letter, ascii_lower, ascii_lowercase, ascii_space, ascii_text, ascii_upper,
    ascii_uppercase, lowercase_mapping, lowercase_of, unicode_alphabetic, unicode_lowercase,
    unicode_uppercase, unicode_whitespace, uppercase_mapping, uppercase_of,
};
use crate::text::{chars_of, extend_from, string_of};

verus! {

/// What the pass remembers between two characters.
#[derive(Clone, Copy, Debug)]
pub struct CaseState {
    /// The next letter begins a sentence.
    pub capitalize_next: bool,
    /// The character before was a lowercase letter.
    pub after_lowercase: bool,
    /// The character before was one of `.`, `!` and `?`.
    pub after_sentence_end: bool,
}

/// The three characters that end a sentence.
pub open spec fn sentence_end(c: char) -> bool {
    c == '.' || c == '!' || c == '?'
}

impl CaseState {
    /// The state at the start of a text: a letter that comes now is
    /// capitalized. Sentence ends before the first letter leave that so; any
    /// other character before it makes the first letter a small one.
    pub open spec fn initial() -> CaseState {
        CaseState { capitalize_next: true, after_lowercase: false, after_sentence_end: false }
    }

    /// What the pass writes for `c`. A letter is written as its uppercase
    /// mapping where it begins a sentence, else as its lowercase mapping,
    /// with a space before it where it is an uppercase letter behind a
    /// lowercase one. Any other character is written as it is.
    pub open spec fn emits(self, c: char) -> Seq<char> {
        if unicode_alphabetic(c) {
            let cased = if self.capitalize_next {
                uppercase_mapping(c)
            } else {
                lowercase_mapping(c)
            };
            if self.after_lowercase && unicode_uppercase(c) {
                seq![' '] + cased
            } else {
                cased
            }
        } else {
            seq![c]
        }
    }

    /// The state behind `c`. A sentence end is remembered, and whitespace
    /// behind it makes the next letter a capital; any other character that
    /// is no letter makes it a small one.
    pub open spec fn after(self, c: char) -> CaseState {
        if unicode_alphabetic(c) {
            CaseState {
                capitalize_next: false,
                after_lowercase: unicode_lowercase(c),
                after_sentence_end: false,
            }
        } else if sentence_end(c) {
            CaseState {
                capitalize_next: self.capitalize_next,
                after_lowercase: false,
                after_sentence_end: true,
            }
        } else if unicode_whitespace(c) && self.after_sentence_end {
            CaseState { capitalize_next: true, after_lowercase: false, after_sentence_end: false }
        } else {
            CaseState { capitalize_next: false, after_lowercase: false, after_sentence_end: false }
        }
    }

    /// Whether the pass writes `c` as it is.
    pub open spec fn keeps(self, c: char) -> bool {
        self.emits(c) == seq![c]
    }

    /// What the pass writes for an ASCII character: `emits`, read by the
    /// ASCII classes.
    pub open spec fn ascii_emits(self, c: char) -> Seq<char> {
        if ascii_letter(c) {
            let cased = if self.capitalize_next {
                ascii_upper(c)
            } else {
                ascii_lower(c)
            };
            if self.after_lowercase && ascii_uppercase(c) {
                seq![' ', cased]
            } else {
                seq![cased]
            }
        } else {
            seq![c]
        }
    }

    /// The state behind an ASCII character: `after`, read by the ASCII
    /// classes.
    pub open spec fn ascii_after(self, c: char) -> CaseState {
        if ascii_letter(c) {
            CaseState {
                capitalize_next: false,
                after_lowercase: ascii_lowercase(c),
                after_sentence_end: false,
            }
        } else if sentence_end(c) {
            CaseState {
                capitalize_next: self.capitalize_next,
                after_lowercase: false,
                after_sentence_end: true,
            }
        } else if ascii_space(c) && self.after_sentence_end {
            CaseState { capitalize_next: true, after_lowercase: false, after_sentence_end: false }
        } else {
            CaseState { capitalize_next: false, after_lowercase: false, after_sentence_end: false }
        }
    }

    /// Whether a second pass in the state `self` may run over what a first
    /// pass in the state `first` writes: both capitalize the next letter or
    /// neither does, both stand behind a sentence end or neither does, and
    /// neither capitalizes a letter that stands behind a lowercase one.
    pub open spec fn follows(self, first: CaseState) -> bool {
        &&& self.capitalize_next == first.capitalize_next
        &&& self.after_sentence_end == first.after_sentence_end
        &&& (self.capitalize_next ==> !self.after_lowercase)
        &&& (first.after_lowercase ==> !first.capitalize_next && !first.after_sentence_end)
    }

    /// The state at the start of a text.
    pub fn new() -> (st: CaseState)
        ensures
            st == CaseState::initial(),
    {
        CaseState { capitalize_next: true, after_lowercase: false, after_sentence_end: false }
    }

    /// Writes `c` behind `out` and moves on to the state behind it.
    pub fn step(&mut self, c: char, out: &mut Vec<char>)
        ensures
            final(out)@ == old(out)@ + old(self).emits(c),
            *final(self) == old(self).after(c),
            ascii(c) ==> old(self).emits(c) == old(self).ascii_emits(c),
            ascii(c) ==> old(self).after(c) == old(self).ascii_after(c),
    {
        if c.is_alphabetic() {
            if self.after_lowercase && c.is_uppercase() {
                out.push(' ');
            }
            let cased: Vec<char> = if self.capitalize_next {
                uppercase_of(c)
            } else {
                lowercase_of(c)
            };
            extend_from(out, &cased, 0, cased.len());
            assert(cased@.subrange(0, cased@.len() as int) =~= cased@);
            assert(out@ =~= old(out)@ + old(self).emits(c));
            assert(ascii(c) ==> old(self).emits(c) =~= old(self).ascii_emits(c));
            self.capitalize_next = false;
            self.after_lowercase = c.is_lowercase();
            self.after_sentence_end = false;
        } else {
            out.push(c);
            assert(out@ =~= old(out)@ + old(self).emits(c));
            if c == '.' || c == '!' || c == '?' {
                self.after_sentence_end = true;
            } else if c.is_whitespace() && self.after_sentence_end {
                self.capitalize_next = true;
                self.after_sentence_end = false;
            } else {
                self.capitalize_next = false;
                self.after_sentence_end = false;
            }
            self.after_lowercase = false;
        }
    }
}

/// What the pass writes for `s` when it starts in the state `st`.
pub open spec fn sentence_case_from(st: CaseState, s: Seq<char>) -> Seq<char>
    decreases s.len(),
{
    if s.len() == 0 {
        Seq::empty()
    } else {
        st.emits(s[0]) + sentence_case_from(st.after(s[0]), s.drop_first())
    }
}

/// The text `s` in sentence case.
pub open spec fn sentence_case_text(s: Seq<char>) -> Seq<char> {
    sentence_case_from(CaseState::initial(), s)
}

/// What the pass writes for the ASCII text `s` when it starts in the state
/// `st`.
pub open spec fn ascii_sentence_case_from(st: CaseState, s: Seq<char>) -> Seq<char>
    decreases s.len(),
{
    if s.len() == 0 {
        Seq::empty()
    } else {
        st.ascii_emits(s[0]) + ascii_sentence_case_from(st.ascii_after(s[0]), s.drop_first())
    }
}

/// The ASCII text `s` in sentence case.
pub open spec fn ascii_sentence_case_text(s: Seq<char>) -> Seq<char> {
    ascii_sentence_case_from(CaseState::initial(), s)
}

/// Whether the pass by the ASCII classes that starts in `st` writes every
/// character of `s` as it is.
pub open spec fn ascii_kept_from(st: CaseState, s: Seq<char>) -> bool
    decreases s.len(),
{
    s.len() == 0 || (st.ascii_emits(s[0]) == seq![s[0]] && ascii_kept_from(
        st.ascii_after(s[0]),
        s.drop_first(),
    ))
}

/// The pass by the ASCII classes leaves a text alone of which it keeps
/// every character.
pub proof fn lemma_ascii_kept_text_is_unchanged(st: CaseState, s: Seq<char>)
    requires
        ascii_kept_from(st, s),
    ensures
        ascii_sentence_case_from(st, s) == s,
    decreases s.len(),
{
    if s.len() > 0 {
        lemma_ascii_kept_text_is_unchanged(st.ascii_after(s[0]), s.drop_first());
        assert(seq![s[0]] + s.drop_first() =~= s);
    }
}

/// What the pass writes for an ASCII text is ASCII.
pub proof fn lemma_ascii_sentence_case_is_ascii(st: CaseState, s: Seq<char>)
    requires
        ascii_text(s),
    ensures
        ascii_text(ascii_sentence_case_from(st, s)),
    decreases s.len(),
{
    if s.len() > 0 {
        let c = s[0];
        let rest = s.drop_first();
        assert(ascii(c));
        assert forall|i: int| 0 <= i < rest.len() implies ascii(#[trigger] rest[i]) by {
            assert(rest[i] == s[i + 1]);
        }
        lemma_ascii_sentence_case_is_ascii(st.ascii_after(c), rest);
        let head = st.ascii_emits(c);
        let tail = ascii_sentence_case_from(st.ascii_after(c), rest);
        assert forall|i: int| 0 <= i < (head + tail).len() implies ascii(
            #[trigger] (head + tail)[i],
        ) by {
            if i >= head.len() {
                assert((head + tail)[i] == tail[i - head.len()]);
            }
        }
    }
}

/// A second pass keeps every character that a first pass over an ASCII text
/// writes, where the state of the second follows that of the first.
pub proof fn lemma_ascii_pass_keeps_its_output(first: CaseState, second: CaseState, s: Seq<char>)
    requires
        ascii_text(s),
        second.follows(first),
    ensures
        ascii_kept_from(second, ascii_sentence_case_from(first, s)),
    decreases s.len(),
{
    if s.len() > 0 {
        let c = s[0];
        let rest = s.drop_first();
        let head = first.ascii_emits(c);
        let tail = ascii_sentence_case_from(first.ascii_after(c), rest);
        let out = head + tail;
        assert(ascii(c));
        assert forall|i: int| 0 <= i < rest.len() implies ascii(#[trigger] rest[i]) by {
            assert(rest[i] == s[i + 1]);
        }
        if ascii_letter(c) && first.after_lowercase && ascii_uppercase(c) {
            let x = ascii_lower(c);
            let between = second.ascii_after(' ');
            assert(head =~= seq![' ', x]);
            assert(ascii_lowercase(x));
            lemma_ascii_pass_keeps_its_output(first.ascii_after(c), between.ascii_after(x), rest);
            assert(out[0] == ' ');
            assert(out.drop_first() =~= seq![x] + tail);
            assert(out.drop_first()[0] == x);
            assert(out.drop_first().drop_first() =~= tail);
            assert(between.ascii_emits(x) =~= seq![x]);
            assert(ascii_kept_from(between, out.drop_first()));
            assert(second.ascii_emits(' ') =~= seq![' ']);
        } else {
            let x = head[0];
            assert(head =~= seq![x]);
            if ascii_letter(c) {
                if first.capitalize_next {
                    assert(ascii_uppercase(x));
                } else {
                    assert(ascii_lowercase(x));
                }
            }
            lemma_ascii_pass_keeps_its_output(first.ascii_after(c), second.ascii_after(x), rest);
            assert(out[0] == x);
            assert(out.drop_first() =~= tail);
            assert(second.ascii_emits(x) =~= seq![x]);
        }
    }
}

/// Sentence case is idempotent on ASCII text: what one pass writes is ASCII,
/// and a second pass over it gives what the first gave.
pub proof fn lemma_ascii_sentence_case_idempotent(s: Seq<char>)
    requires
        ascii_text(s),
    ensures
        ascii_text(ascii_sentence_case_text(s)),
        ascii_sentence_case_text(ascii_sentence_case_text(s)) == ascii_sentence_case_text(s),
{
    let start = CaseState::initial();
    lemma_ascii_sentence_case_is_ascii(start, s);
    lemma_ascii_pass_keeps_its_output(start, start, s);
    lemma_ascii_kept_text_is_unchanged(start, ascii_sentence_case_text(s));
}

/// Whether the pass that starts in `st` writes every character of `s` as it
/// is.
pub open spec fn in_sentence_case_from(st: CaseState, s: Seq<char>) -> bool
    decreases s.len(),
{
    s.len() == 0 || (st.keeps(s[0]) && in_sentence_case_from(st.after(s[0]), s.drop_first()))
}

/// Whether `s` is in sentence case already: every letter that begins a
/// sentence is its own uppercase mapping, every other letter is its own
/// lowercase mapping, and no uppercase letter stands behind a lowercase one.
pub open spec fn in_sentence_case(s: Seq<char>) -> bool {
    in_sentence_case_from(CaseState::initial(), s)
}

/// The pass leaves a text alone of which it keeps every character.
pub proof fn lemma_kept_text_is_unchanged(st: CaseState, s: Seq<char>)
    requires
        in_sentence_case_from(st, s),
    ensures
        sentence_case_from(st, s) == s,
    decreases s.len(),
{
    if s.len() > 0 {
        lemma_kept_text_is_unchanged(st.after(s[0]), s.drop_first());
        assert(seq![s[0]] + s.drop_first() =~= s);
    }
}

/// Sentence case is idempotent on a text that is in sentence case: the text
/// comes back as it is, so a second pass gives what the first gave.
pub proof fn lemma_sentence_case_idempotent(s: Seq<char>)
    requires
        in_sentence_case(s),
    ensures
        sentence_case_text(s) == s,
        sentence_case_text(sentence_case_text(s)) == sentence_case_text(s),
{
    lemma_kept_text_is_unchanged(CaseState::initial(), s);
}

/// The text of `s` in sentence case. An ASCII text becomes what the pass
/// writes by the ASCII classes.
pub fn sentence_case_chars(s: &Vec<char>) -> (out: Vec<char>)
    ensures
        out@ == sentence_case_text(s@),
        ascii_text(s@) ==> out@ == ascii_sentence_case_text(s@),
{
    let mut out: Vec<char> = Vec::new();
    let mut st = CaseState::new();
    let mut i: usize = 0;
    assert(s@.skip(0) =~= s@);
    assert(out@ + sentence_case_text(s@) =~= sentence_case_text(s@));
    assert(out@ + ascii_sentence_case_text(s@) =~= ascii_sentence_case_text(s@));
    while i < s.len()
        invariant
            i <= s.len(),
            sentence_case_text(s@) == out@ + sentence_case_from(st, s@.skip(i as int)),
            ascii_text(s@) ==> ascii_sentence_case_text(s@) == out@ + ascii_sentence_case_from(
                st,
                s@.skip(i as int),
            ),
        decreases s.len() - i,
    {
        let ghost before = out@;
        let ghost rest = s@.skip(i as int);
        let ghost prev = st;
        st.step(s[i], &mut out);
        proof {
            assert(rest.drop_first() =~= s@.skip(i + 1));
            assert(before + (prev.emits(rest[0]) + sentence_case_from(st, rest.drop_first()))
                =~= out@ + sentence_case_from(st, s@.skip(i + 1)));
            if ascii_text(s@) {
                assert(ascii(s@[i as int]));
                assert(before + (prev.ascii_emits(rest[0]) + ascii_sentence_case_from(
                    st,
                    rest.drop_first(),
                )) =~= out@ + ascii_sentence_case_from(st, s@.skip(i + 1)));
            }
        }
        i += 1;
    }
    assert(out@ + sentence_case_from(st, s@.skip(i as int)) =~= out@);
    assert(out@ + ascii_sentence_case_from(st, s@.skip(i as int)) =~= out@);
    out
}

/// The text of `value` in sentence case.
///
/// A letter is capitalized where nothing but `.`, `!` and `?` stands between
/// it and the start of the text, or between it and a whitespace character
/// that directly follows a `.`, `!` or `?`. Every other letter is made
/// small: so the first letter of ` a`, `1a` or `(a` stays small. An uppercase
/// letter directly behind a lowercase one gets a space before it. What is no
/// letter stays as it is.
///
/// An ASCII text becomes what the pass writes by the ASCII classes, which
/// is ASCII and in sentence case: a second pass gives it back.
pub fn sentence_case(value: &str) -> (out: String)
    ensures
        out@ == sentence_case_text(value@),
        ascii_text(value@) ==> out@ == ascii_sentence_case_text(value@),
        ascii_text(value@) ==> ascii_text(out@) && ascii_sentence_case_text(out@) == out@,
{
    let chars = chars_of(value);
    let out = sentence_case_chars(&chars);
    proof {
        if ascii_text(value@) {
            lemma_ascii_sentence_case_idempotent(value@);
        }
    }
    string_of(&out)
}

} // verus!
