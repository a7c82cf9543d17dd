use witt_strutil::classify::{
    is_ascii_digit, is_ascii_punctuation, is_ascii_uppercase, is_vowel, to_ascii_upper,
};

#[test]
fn vowels_are_the_five_letters_in_either_case() {
    for c in ['a', 'e', 'i', 'o', 'u', 'A', 'E', 'I', 'O', 'U'] {
        assert!(is_vowel(c));
    }
}

#[test]
fn y_and_accented_vowels_are_no_vowels() {
    for c in ['y', 'Y', 'b', 'z', '1', ' ', '.', '\u{e9}', '\u{c4}', '\u{fc}'] {
        assert!(!is_vowel(c));
    }
}

#[test]
fn vowel_test_agrees_with_the_lowered_letter_everywhere() {
    for code in 0u32..=0x10FFFF {
        if let Some(c) = char::from_u32(code) {
            let expected = matches!(c.to_ascii_lowercase(), 'a' | 'e' | 'i' | 'o' | 'u');
            assert_eq!(is_vowel(c), expected);
        }
    }
}

#[test]
fn ascii_digit_agrees_with_std_everywhere() {
    for code in 0u32..=0x10FFFF {
        if let Some(c) = char::from_u32(code) {
            assert_eq!(is_ascii_digit(c), c.is_ascii_digit());
        }
    }
}

#[test]
fn ascii_uppercase_agrees_with_std_everywhere() {
    for code in 0u32..=0x10FFFF {
        if let Some(c) = char::from_u32(code) {
            assert_eq!(is_ascii_uppercase(c), c.is_ascii_uppercase());
        }
    }
}

#[test]
fn ascii_punctuation_agrees_with_std_everywhere() {
    for code in 0u32..=0x10FFFF {
        if let Some(c) = char::from_u32(code) {
            assert_eq!(is_ascii_punctuation(c), c.is_ascii_punctuation());
        }
    }
}

#[test]
fn ascii_upper_agrees_with_std_everywhere() {
    for code in 0u32..=0x10FFFF {
        if let Some(c) = char::from_u32(code) {
            assert_eq!(to_ascii_upper(c), c.to_ascii_uppercase());
        }
    }
}

#[test]
fn ascii_upper_on_chosen_characters() {
    assert_eq!(to_ascii_upper('a'), 'A');
    assert_eq!(to_ascii_upper('z'), 'Z');
    assert_eq!(to_ascii_upper('A'), 'A');
    assert_eq!(to_ascii_upper('1'), '1');
    assert_eq!(to_ascii_upper('\u{e9}'), '\u{e9}');
}

#[test]
fn ascii_punctuation_on_chosen_characters() {
    for c in ['!', '/', ':', '@', '[', '`', '{', '~', '.', ',', '-', '\''] {
        assert!(is_ascii_punctuation(c));
    }
    for c in [' ', '0', '9', 'A', 'Z', 'a', 'z', '\u{7f}', '\u{bf}', '\u{2014}'] {
        assert!(!is_ascii_punctuation(c));
    }
}
