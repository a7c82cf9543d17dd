use witt_strutil::boundary::{split_at_boundaries, Boundary};

const KINDS: [Boundary; 4] = [
    Boundary::LowerToUpper,
    Boundary::UpperToLower,
    Boundary::DigitToNondigit,
    Boundary::NondigitToDigit,
];

#[test]
fn camel_case_is_cut_before_the_capital() {
    assert_eq!(split_at_boundaries("camelCase", Boundary::LowerToUpper), vec!["camel", "Case"]);
}

#[test]
fn empty_string_gives_no_segment() {
    for kind in KINDS {
        assert_eq!(split_at_boundaries("", kind), Vec::<String>::new());
    }
}

#[test]
fn string_without_boundary_gives_itself() {
    assert_eq!(split_at_boundaries("hello", Boundary::LowerToUpper), vec!["hello"]);
    assert_eq!(split_at_boundaries("hello", Boundary::UpperToLower), vec!["hello"]);
    assert_eq!(split_at_boundaries("hello", Boundary::DigitToNondigit), vec!["hello"]);
    assert_eq!(split_at_boundaries("hello", Boundary::NondigitToDigit), vec!["hello"]);
    assert_eq!(split_at_boundaries("ABC", Boundary::LowerToUpper), vec!["ABC"]);
    assert_eq!(split_at_boundaries("x", Boundary::LowerToUpper), vec!["x"]);
}

#[test]
fn lower_to_upper_cuts_at_every_transition() {
    assert_eq!(split_at_boundaries("aBcD", Boundary::LowerToUpper), vec!["a", "Bc", "D"]);
    assert_eq!(
        split_at_boundaries("parseHTTPResponse", Boundary::LowerToUpper),
        vec!["parse", "HTTPResponse"]
    );
    assert_eq!(split_at_boundaries("a1B", Boundary::LowerToUpper), vec!["a1B"]);
}

#[test]
fn upper_to_lower_cuts_behind_the_capital() {
    assert_eq!(split_at_boundaries("camelCase", Boundary::UpperToLower), vec!["camelC", "ase"]);
    assert_eq!(
        split_at_boundaries("HelloWorld", Boundary::UpperToLower),
        vec!["H", "elloW", "orld"]
    );
}

#[test]
fn digit_to_nondigit_cuts_behind_the_digits() {
    assert_eq!(
        split_at_boundaries("abc123def456", Boundary::DigitToNondigit),
        vec!["abc123", "def456"]
    );
    assert_eq!(split_at_boundaries("1a2b", Boundary::DigitToNondigit), vec!["1", "a2", "b"]);
    assert_eq!(split_at_boundaries("12 3", Boundary::DigitToNondigit), vec!["12", " 3"]);
}

#[test]
fn nondigit_to_digit_cuts_before_the_digits() {
    assert_eq!(
        split_at_boundaries("abc123def456", Boundary::NondigitToDigit),
        vec!["abc", "123def", "456"]
    );
    assert_eq!(split_at_boundaries("1a2b", Boundary::NondigitToDigit), vec!["1a", "2b"]);
}

#[test]
fn case_boundaries_follow_unicode() {
    assert_eq!(
        split_at_boundaries("stra\u{df}e\u{c4}pfel", Boundary::LowerToUpper),
        vec!["stra\u{df}e", "\u{c4}pfel"]
    );
    assert_eq!(
        split_at_boundaries("\u{c4}pfel", Boundary::UpperToLower),
        vec!["\u{c4}", "pfel"]
    );
}

#[test]
fn digit_boundaries_are_ascii_only() {
    assert_eq!(
        split_at_boundaries("\u{661}\u{662}a", Boundary::DigitToNondigit),
        vec!["\u{661}\u{662}a"]
    );
    assert_eq!(
        split_at_boundaries("a\u{661}2", Boundary::NondigitToDigit),
        vec!["a\u{661}", "2"]
    );
}

#[test]
fn joined_segments_give_the_string_back() {
    let inputs = [
        "camelCase",
        "HelloWorld",
        "abc123def456",
        "a",
        "aB",
        "Ab",
        "1a",
        "a1",
        "parseHTTPResponse2Json",
        " x Y 3 z ",
        "stra\u{df}e\u{c4}pfel",
    ];
    for kind in KINDS {
        for input in inputs {
            let parts = split_at_boundaries(input, kind);
            assert_eq!(parts.concat(), input);
            assert!(parts.iter().all(|p| !p.is_empty()));
        }
    }
}

#[test]
fn boundary_kinds_compare_by_variant() {
    assert_eq!(Boundary::LowerToUpper, Boundary::LowerToUpper);
    assert_ne!(Boundary::LowerToUpper, Boundary::UpperToLower);
    assert!(Boundary::DigitToNondigit.is_left_by('7'));
    assert!(Boundary::DigitToNondigit.is_entered_by('x'));
    assert!(Boundary::NondigitToDigit.is_left_by('x'));
    assert!(Boundary::NondigitToDigit.is_entered_by('7'));
    assert!(Boundary::LowerToUpper.is_left_by('x'));
    assert!(Boundary::LowerToUpper.is_entered_by('X'));
    assert!(Boundary::UpperToLower.is_left_by('X'));
    assert!(!Boundary::UpperToLower.is_entered_by('X'));
}
