//! Splitting a string where its characters pass from one class to another.

use vstd::prelude::*;
use crate::classify::{ascii_digit, is_ascii_digit, unicode_lowercase, unicode_uppercase};
use crate::text::{chars_of, rows, strings_of, texts};

verus! {

/// A transition between two adjacent characters at which a string is split.
#[derive(Clone, Copy, Debug, PartialEq, Eq)]
pub enum Boundary {
    /// After a lowercase character that an uppercase character follows.
    LowerToUpper,
    /// After an uppercase character that a lowercase character follows.
    UpperToLower,
    /// After an ASCII digit that anything else follows.
    DigitToNondigit,
    /// After anything but an ASCII digit that an ASCII digit follows.
    NondigitToDigit,
}

impl Boundary {
    /// Whether `c` is of the class that the transition leaves.
    pub open spec fn leaves(self, c: char) -> bool {
        match self {
            Boundary::LowerToUpper => unicode_lowercase(c),
            Boundary::UpperToLower => unicode_uppercase(c),
            Boundary::DigitToNondigit => ascii_digit(c),
            Boundary::NondigitToDigit => !ascii_digit(c),
        }
    }

    /// Whether `c` is of the class that the transition enters.
    pub open spec fn enters(self, c: char) -> bool {
        match self {
            Boundary::LowerToUpper => unicode_uppercase(c),
            Boundary::UpperToLower => unicode_lowercase(c),
            Boundary::DigitToNondigit => !ascii_digit(c),
            Boundary::NondigitToDigit => ascii_digit(c),
        }
    }

    /// Whether `s` is split between its characters `i` and `i + 1`.
    pub open spec fn falls_after(self, s: Seq<char>, i: int) -> bool {
        0 <= i && i + 1 < s.len() && self.leaves(s[i]) && self.enters(s[i + 1])
    }

    /// Tells whether `c` is of the class that the transition leaves.
    pub fn is_left_by(self, c: char) -> (r: bool)
        ensures
            r == self.leaves(c),
    {
        match self {
            Boundary::LowerToUpper => c.is_lowercase(),
            Boundary::UpperToLower => c.is_uppercase(),
            Boundary::DigitToNondigit => is_ascii_digit(c),
            Boundary::NondigitToDigit => !is_ascii_digit(c),
        }
    }

    /// Tells whether `c` is of the class that the transition enters.
    pub fn is_entered_by(self, c: char) -> (r: bool)
        ensures
            r == self.enters(c),
    {
        match self {
            Boundary::LowerToUpper => c.is_uppercase(),
            Boundary::UpperToLower => c.is_lowercase(),
            Boundary::DigitToNondigit => !is_ascii_digit(c),
            Boundary::NondigitToDigit => is_ascii_digit(c),
        }
    }
}

/// The length of the first segment of `s`: that of its shortest non-empty
/// prefix that ends at a boundary, or of `s` where it has none.
pub open spec fn first_segment_len(kind: Boundary, s: Seq<char>) -> nat
    decreases s.len(),
{
    if s.len() <= 1 {
        s.len()
    } else if kind.leaves(s[0]) && kind.enters(s[1]) {
        1
    } else {
        1 + first_segment_len(kind, s.drop_first())
    }
}

/// The first segment of a non-empty string is not empty and not longer than
/// the string.
pub proof fn lemma_first_segment_len_bounds(kind: Boundary, s: Seq<char>)
    ensures
        first_segment_len(kind, s) <= s.len(),
        s.len() > 0 ==> first_segment_len(kind, s) >= 1,
    decreases s.len(),
{
    if s.len() > 1 && !(kind.leaves(s[0]) && kind.enters(s[1])) {
        lemma_first_segment_len_bounds(kind, s.drop_first());
    }
}

/// The segments of `s`: its first segment, then the segments of what follows
/// it. The empty string has none.
pub open spec fn segments(kind: Boundary, s: Seq<char>) -> Seq<Seq<char>>
    decreases s.len(),
{
    if s.len() == 0 {
        Seq::empty()
    } else {
        let n = first_segment_len(kind, s) as int;
        proof {
            lemma_first_segment_len_bounds(kind, s);
        }
        seq![s.take(n)] + segments(kind, s.skip(n))
    }
}

/// A prefix of `n` characters that holds no boundary inside, and that ends at
/// a boundary or at the end of `s`, is the first segment of `s`.
pub proof fn lemma_first_segment_is(kind: Boundary, s: Seq<char>, n: int)
    requires
        1 <= n <= s.len(),
        forall|j: int| 0 <= j < n - 1 ==> !kind.falls_after(s, j),
        n == s.len() || kind.falls_after(s, n - 1),
    ensures
        first_segment_len(kind, s) == n,
    decreases n,
{
    if s.len() <= 1 {
    } else if kind.leaves(s[0]) && kind.enters(s[1]) {
        assert(kind.falls_after(s, 0));
    } else {
        let t = s.drop_first();
        assert(!kind.falls_after(s, 0));
        assert forall|j: int| 0 <= j < n - 2 implies !kind.falls_after(t, j) by {
            assert(!kind.falls_after(s, j + 1));
        }
        if n != s.len() {
            assert(kind.falls_after(s, n - 1));
            assert(kind.falls_after(t, n - 2));
        }
        lemma_first_segment_is(kind, t, n - 1);
    }
}

/// Splits `s` after every character of the class that `kind` leaves which a
/// character of the class that it enters follows.
pub fn split_chars_at(kind: Boundary, s: &Vec<char>) -> (parts: Vec<Vec<char>>)
    ensures
        rows(parts@) == segments(kind, s@),
{
    let mut parts: Vec<Vec<char>> = Vec::new();
    let mut buffer: Vec<char> = Vec::new();
    let ghost mut start: int = 0;
    let mut i: usize = 0;
    assert(s@.skip(0) =~= s@);
    assert(rows(parts@) + segments(kind, s@) =~= segments(kind, s@));
    while i < s.len()
        invariant
            0 <= start <= i <= s.len(),
            buffer@ == s@.subrange(start, i as int),
            forall|j: int| start <= j < i ==> !kind.falls_after(s@, j),
            segments(kind, s@) == rows(parts@) + segments(kind, s@.skip(start)),
        decreases s.len() - i,
    {
        let c = s[i];
        buffer.push(c);
        assert(buffer@ =~= s@.subrange(start, i + 1));
        if kind.is_left_by(c) && i + 1 < s.len() && kind.is_entered_by(s[i + 1]) {
            proof {
                let t = s@.skip(start);
                let n = i + 1 - start;
                assert(kind.falls_after(s@, i as int));
                assert(kind.falls_after(t, n - 1));
                assert forall|j: int| 0 <= j < n - 1 implies !kind.falls_after(t, j) by {
                    assert(!kind.falls_after(s@, start + j));
                }
                lemma_first_segment_is(kind, t, n);
                assert(t.take(n) =~= buffer@);
                assert(t.skip(n) =~= s@.skip(i + 1));
                assert(rows(parts@.push(buffer)) =~= rows(parts@) + seq![buffer@]);
                start = i + 1;
            }
            parts.push(buffer);
            buffer = Vec::new();
            assert(buffer@ =~= s@.subrange(start, i + 1));
        }
        i += 1;
    }
    if buffer.len() > 0 {
        proof {
            let t = s@.skip(start);
            let n = s.len() - start;
            assert forall|j: int| 0 <= j < n - 1 implies !kind.falls_after(t, j) by {
                assert(!kind.falls_after(s@, start + j));
            }
            lemma_first_segment_is(kind, t, n);
            assert(t.take(n) =~= buffer@);
            assert(t.skip(n).len() == 0);
            assert(segments(kind, t.skip(n)) =~= Seq::<Seq<char>>::empty());
            assert(segments(kind, t) =~= seq![buffer@]);
            assert(rows(parts@.push(buffer)) =~= rows(parts@) + seq![buffer@]);
        }
        parts.push(buffer);
    } else {
        assert(s@.skip(start).len() == 0);
        assert(segments(kind, s@.skip(start)) =~= Seq::<Seq<char>>::empty());
        assert(rows(parts@) + segments(kind, s@.skip(start)) =~= rows(parts@));
    }
    parts
}

/// The segments of `value` at the boundaries of `kind`, in order: the empty
/// string gives no segment, a string without a boundary gives itself.
pub fn split_at_boundaries(value: &str, kind: Boundary) -> (parts: Vec<String>)
    ensures
        texts(parts@) == segments(kind, value@),
        value@.len() == 0 ==> parts@.len() == 0,
{
    let chars = chars_of(value);
    let parts = split_chars_at(kind, &chars);
    let out = strings_of(&parts);
    assert(texts(out@).len() == out@.len());
    out
}

/// No boundary falls inside the first segment of `s`, and one falls at its
/// end unless the segment is the whole of `s`.
pub proof fn lemma_first_segment_ends_at_boundary(kind: Boundary, s: Seq<char>)
    ensures
        forall|j: int| 0 <= j < first_segment_len(kind, s) - 1 ==> !kind.falls_after(s, j),
        first_segment_len(kind, s) < s.len() ==> kind.falls_after(
            s,
            first_segment_len(kind, s) - 1,
        ),
    decreases s.len(),
{
    if s.len() > 1 && !(kind.leaves(s[0]) && kind.enters(s[1])) {
        let t = s.drop_first();
        let m = first_segment_len(kind, t) as int;
        lemma_first_segment_ends_at_boundary(kind, t);
        lemma_first_segment_len_bounds(kind, t);
        assert forall|j: int| 0 <= j < m implies !kind.falls_after(s, j) by {
            if j > 0 {
                assert(!kind.falls_after(t, j - 1));
            }
        }
        if m < t.len() {
            assert(kind.falls_after(t, m - 1));
        }
    }
}

/// Joined in order, the segments of a string give the string back.
pub proof fn lemma_segments_rejoin(kind: Boundary, s: Seq<char>)
    ensures
        segments(kind, s).flatten() == s,
    decreases s.len(),
{
    if s.len() > 0 {
        let n = first_segment_len(kind, s) as int;
        lemma_first_segment_len_bounds(kind, s);
        lemma_segments_rejoin(kind, s.skip(n));
        let rest = segments(kind, s.skip(n));
        let all = seq![s.take(n)] + rest;
        assert(all.first() == s.take(n));
        assert(all.drop_first() =~= rest);
        assert(s.take(n) + s.skip(n) =~= s);
    } else {
        assert(segments(kind, s).flatten() =~= s);
    }
}

/// No segment is empty.
pub proof fn lemma_segments_nonempty(kind: Boundary, s: Seq<char>)
    ensures
        forall|k: int| 0 <= k < segments(kind, s).len() ==> (#[trigger] segments(kind, s)[k]).len() > 0,
    decreases s.len(),
{
    if s.len() > 0 {
        let n = first_segment_len(kind, s) as int;
        lemma_first_segment_len_bounds(kind, s);
        lemma_segments_nonempty(kind, s.skip(n));
        let rest = segments(kind, s.skip(n));
        assert forall|k: int| 0 <= k < segments(kind, s).len() implies (#[trigger] segments(
            kind,
            s,
        )[k]).len() > 0 by {
            if k > 0 {
                assert(segments(kind, s)[k] == rest[k - 1]);
            }
        }
    }
}

/// No boundary falls inside a segment.
pub proof fn lemma_segments_hold_no_boundary(kind: Boundary, s: Seq<char>)
    ensures
        forall|k: int, j: int|
            0 <= k < segments(kind, s).len() ==> !#[trigger] kind.falls_after(
                segments(kind, s)[k],
                j,
            ),
    decreases s.len(),
{
    if s.len() > 0 {
        let n = first_segment_len(kind, s) as int;
        lemma_first_segment_len_bounds(kind, s);
        lemma_first_segment_ends_at_boundary(kind, s);
        lemma_segments_hold_no_boundary(kind, s.skip(n));
        let rest = segments(kind, s.skip(n));
        assert forall|k: int, j: int| 0 <= k < segments(kind, s).len() implies !#[trigger] kind.falls_after(
            segments(kind, s)[k],
            j,
        ) by {
            if k > 0 {
                assert(segments(kind, s)[k] == rest[k - 1]);
            } else {
                if 0 <= j && j + 1 < n {
                    assert(!kind.falls_after(s, j));
                }
            }
        }
    }
}

/// Where one segment ends and the next begins, a boundary falls: the first
/// ends in a character of the class that `kind` leaves, the second begins
/// with one of the class that it enters.
pub proof fn lemma_segments_meet_at_boundaries(kind: Boundary, s: Seq<char>)
    ensures
        forall|k: int|
            0 <= k && k + 1 < segments(kind, s).len() ==> kind.leaves(
                (#[trigger] segments(kind, s)[k]).last(),
            ) && kind.enters(segments(kind, s)[k + 1].first()),
    decreases s.len(),
{
    if s.len() > 0 {
        let n = first_segment_len(kind, s) as int;
        let t = s.skip(n);
        lemma_first_segment_len_bounds(kind, s);
        lemma_first_segment_ends_at_boundary(kind, s);
        lemma_segments_meet_at_boundaries(kind, t);
        let rest = segments(kind, t);
        assert forall|k: int| 0 <= k && k + 1 < segments(kind, s).len() implies kind.leaves(
            (#[trigger] segments(kind, s)[k]).last(),
        ) && kind.enters(segments(kind, s)[k + 1].first()) by {
            assert(segments(kind, s)[k + 1] == rest[k]);
            if k > 0 {
                assert(segments(kind, s)[k] == rest[k - 1]);
            } else {
                assert(rest.len() > 0);
                assert(t.len() > 0);
                lemma_first_segment_len_bounds(kind, t);
                assert(rest[0] == t.take(first_segment_len(kind, t) as int));
                assert(kind.falls_after(s, n - 1));
            }
        }
    }
}

/// A string in which no boundary falls is its own only segment.
pub proof fn lemma_segments_without_boundary(kind: Boundary, s: Seq<char>)
    requires
        s.len() > 0,
        forall|i: int| !kind.falls_after(s, i),
    ensures
        segments(kind, s) == seq![s],
{
    lemma_first_segment_is(kind, s, s.len() as int);
    let n = s.len() as int;
    assert(s.take(n) =~= s);
    assert(segments(kind, s.skip(n)) =~= Seq::<Seq<char>>::empty());
    assert(segments(kind, s) =~= seq![s]);
}

} // verus!
