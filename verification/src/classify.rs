//! Character classes that the transformations are built on.
//!
//! The ASCII classes are defined here outright. The Unicode classes and case
//! mappings are those of the standard library's tables: each has a name here,
//! and the functions that consult the tables are believed to return what the
//! name stands for. Of an ASCII character they are believed to return what
//! the ASCII class of the same name says: the tables and the ASCII classes
//! agree on the first 128 code points.

use vstd::prelude::*;

verus! {

/// The five ASCII vowels, in either case.
pub open spec fn vowel(c: char) -> bool {
    c == 'a' || c == 'e' || c == 'i' || c == 'o' || c == 'u' || c == 'A' || c == 'E' || c == 'I'
        || c == 'O' || c == 'U'
}

/// The ASCII digits `0` to `9`.
pub open spec fn ascii_digit(c: char) -> bool {
    '0' <= c <= '9'
}

/// The ASCII capital letters `A` to `Z`.
pub open spec fn ascii_uppercase(c: char) -> bool {
    'A' <= c <= 'Z'
}

/// The ASCII small letters `a` to `z`.
pub open spec fn ascii_lowercase(c: char) -> bool {
    'a' <= c <= 'z'
}

/// The ASCII punctuation characters: the four runs `!` to `/`, `:` to `@`,
/// `[` to `` ` `` and `{` to `~`.
pub open spec fn ascii_punctuation(c: char) -> bool {
    '!' <= c <= '/' || ':' <= c <= '@' || '[' <= c <= '`' || '{' <= c <= '~'
}

/// The capital of an ASCII small letter; any other character is itself.
pub open spec fn ascii_upper(c: char) -> char {
    if ascii_lowercase(c) {
        ((c as u8) - 32) as char
    } else {
        c
    }
}

/// The small letter of an ASCII capital; any other character is itself.
pub open spec fn ascii_lower(c: char) -> char {
    if ascii_uppercase(c) {
        ((c as u8) + 32) as char
    } else {
        c
    }
}

/// The first 128 code points.
pub open spec fn ascii(c: char) -> bool {
    c <= '\x7f'
}

/// The ASCII letters, capital and small.
pub open spec fn ascii_letter(c: char) -> bool {
    ascii_uppercase(c) || ascii_lowercase(c)
}

/// The ASCII whitespace that Unicode counts as such: the space, and the
/// five characters from the tab to the carriage return.
pub open spec fn ascii_space(c: char) -> bool {
    c == ' ' || '\t' <= c <= '\r'
}

/// Whether every character of `s` is ASCII.
pub open spec fn ascii_text(s: Seq<char>) -> bool {
    forall|i: int| 0 <= i < s.len() ==> ascii(#[trigger] s[i])
}

/// Whether the Unicode tables give `c` the property Lowercase.
pub uninterp spec fn unicode_lowercase(c: char) -> bool;

/// Whether the Unicode tables give `c` the property Uppercase.
pub uninterp spec fn unicode_uppercase(c: char) -> bool;

/// Whether the Unicode tables give `c` the property Alphabetic.
pub uninterp spec fn unicode_alphabetic(c: char) -> bool;

/// Whether the Unicode tables give `c` the property White_Space.
pub uninterp spec fn unicode_whitespace(c: char) -> bool;

/// The uppercase mapping of `c` in the Unicode tables: one to three
/// characters, `c` alone where it has no mapping.
pub uninterp spec fn uppercase_mapping(c: char) -> Seq<char>;

/// The lowercase mapping of `c` in the Unicode tables: one to three
/// characters, `c` alone where it has no mapping.
pub uninterp spec fn lowercase_mapping(c: char) -> Seq<char>;

/// `char::is_lowercase` answers by the Unicode property Lowercase, which in
/// ASCII the letters `a` to `z` have and nothing else.
pub assume_specification[ char::is_lowercase ](c: char) -> (r: bool)
    ensures
        r == unicode_lowercase(c),
        ascii(c) ==> r == ascii_lowercase(c),
;

/// `char::is_uppercase` answers by the Unicode property Uppercase, which in
/// ASCII the letters `A` to `Z` have and nothing else.
pub assume_specification[ char::is_uppercase ](c: char) -> (r: bool)
    ensures
        r == unicode_uppercase(c),
        ascii(c) ==> r == ascii_uppercase(c),
;

/// `char::is_alphabetic` answers by the Unicode property Alphabetic, which
/// in ASCII the letters have and nothing else.
pub assume_specification[ char::is_alphabetic ](c: char) -> (r: bool)
    ensures
        r == unicode_alphabetic(c),
        ascii(c) ==> r == ascii_letter(c),
;

/// `char::is_whitespace` answers by the Unicode property White_Space, which
/// in ASCII the space and the characters from the tab to the carriage
/// return have and nothing else.
pub assume_specification[ char::is_whitespace ](c: char) -> (r: bool)
    ensures
        r == unicode_whitespace(c),
        ascii(c) ==> r == ascii_space(c),
;

/// `char::to_uppercase` yields the uppercase mapping of `c`; the characters
/// it yields are collected in order. For an ASCII character it yields one
/// character: the capital of a small letter, and any other character itself.
#[verifier::external_body]
pub(crate) fn uppercase_of(c: char) -> (r: Vec<char>)
    ensures
        r@ == uppercase_mapping(c),
        ascii(c) ==> r@ == seq![ascii_upper(c)],
{
    c.to_uppercase().collect()
}

/// `char::to_lowercase` yields the lowercase mapping of `c`; the characters
/// it yields are collected in order. For an ASCII character it yields one
/// character: the small letter of a capital, and any other character itself.
#[verifier::external_body]
pub(crate) fn lowercase_of(c: char) -> (r: Vec<char>)
    ensures
        r@ == lowercase_mapping(c),
        ascii(c) ==> r@ == seq![ascii_lower(c)],
{
    c.to_lowercase().collect()
}

/// Tells whether `c` is one of `a e i o u`, in either case. Accented vowels
/// and `y` are not vowels.
pub fn is_vowel(c: char) -> (r: bool)
    ensures
        r == vowel(c),
{
    c == 'a' || c == 'e' || c == 'i' || c == 'o' || c == 'u' || c == 'A' || c == 'E' || c == 'I'
        || c == 'O' || c == 'U'
}

/// Tells whether `c` is an ASCII digit.
pub fn is_ascii_digit(c: char) -> (r: bool)
    ensures
        r == ascii_digit(c),
{
    '0' <= c && c <= '9'
}

/// Tells whether `c` is an ASCII capital letter.
pub fn is_ascii_uppercase(c: char) -> (r: bool)
    ensures
        r == ascii_uppercase(c),
{
    'A' <= c && c <= 'Z'
}

/// Tells whether `c` is an ASCII punctuation character.
pub fn is_ascii_punctuation(c: char) -> (r: bool)
    ensures
        r == ascii_punctuation(c),
{
    ('!' <= c && c <= '/') || (':' <= c && c <= '@') || ('[' <= c && c <= '`') || ('{' <= c && c
        <= '~')
}

/// The capital of an ASCII small letter; any other character comes back as
/// it is.
pub fn to_ascii_upper(c: char) -> (r: char)
    ensures
        r == ascii_upper(c),
{
    if 'a' <= c && c <= 'z' {
        let b: u8 = c as u8;
        (b - 32) as char
    } else {
        c
    }
}

} // verus!
