use witt_strutil::sentence::{sentence_case, CaseState};

#[test]
fn sentences_are_capitalized_and_the_rest_made_small() {
    assert_eq!(sentence_case("hello world. this IS a TEST"), "Hello world. This is a test");
}

#[test]
fn empty_text_stays_empty() {
    assert_eq!(sentence_case(""), "");
}

#[test]
fn first_letter_is_capitalized() {
    assert_eq!(sentence_case("hello"), "Hello");
    assert_eq!(sentence_case("HELLO"), "Hello");
    assert_eq!(sentence_case("h"), "H");
}

#[test]
fn every_sentence_end_starts_a_sentence_behind_whitespace() {
    assert_eq!(sentence_case("hi! there? yes. ok"), "Hi! There? Yes. Ok");
    assert_eq!(sentence_case("one.\ttwo.\nthree"), "One.\tTwo.\nThree");
}

#[test]
fn sentence_end_without_whitespace_starts_none() {
    assert_eq!(sentence_case("a.b"), "A.b");
    assert_eq!(sentence_case("v1.2.x"), "V1.2.x");
}

#[test]
fn second_whitespace_behind_a_sentence_end_undoes_the_start() {
    assert_eq!(sentence_case("end.  next"), "End.  next");
}

#[test]
fn leading_sentence_ends_keep_the_first_capital() {
    assert_eq!(sentence_case("...a"), "...A");
    assert_eq!(sentence_case("?what"), "?What");
}

#[test]
fn other_leading_characters_undo_the_first_capital() {
    assert_eq!(sentence_case("-a"), "-a");
    assert_eq!(sentence_case(" a"), " a");
    assert_eq!(sentence_case("1a"), "1a");
    assert_eq!(sentence_case("(hello)"), "(hello)");
}

#[test]
fn space_is_put_between_lowercase_and_uppercase() {
    assert_eq!(sentence_case("helloWorld"), "Hello world");
    assert_eq!(sentence_case("mixedCASE"), "Mixed case");
    assert_eq!(sentence_case("aB"), "A b");
    assert_eq!(sentence_case("a B"), "A b");
}

#[test]
fn characters_that_are_no_letters_stay() {
    assert_eq!(sentence_case("123 #! ~"), "123 #! ~");
    assert_eq!(sentence_case("snake_case-NAME"), "Snake_case-name");
}

#[test]
fn case_mappings_follow_unicode() {
    assert_eq!(sentence_case("\u{c9}COLE"), "\u{c9}cole");
    assert_eq!(sentence_case("\u{e9}COLE"), "\u{c9} cole");
    assert_eq!(sentence_case("\u{df}a"), "SSa");
    assert_eq!(sentence_case("a\u{130}"), "A i\u{307}");
}

#[test]
fn text_in_sentence_case_comes_back_as_it_is() {
    for text in [
        "",
        "Hello world. This is a test",
        "Hi! There? Yes. Ok",
        "A.b",
        "-a",
        "End.  next",
        "Snake_case-name",
    ] {
        assert_eq!(sentence_case(text), text);
    }
}

#[test]
fn second_pass_gives_what_the_first_gave() {
    for text in ["hello world. this IS a TEST", "helloWorld", "a.B c!  D", "\u{e9}COLE. oui"] {
        let once = sentence_case(text);
        assert_eq!(sentence_case(&once), once);
    }
}

#[test]
fn second_pass_over_ascii_text_changes_nothing() {
    for text in [
        "(hello)",
        " a",
        "1a",
        "aB.cD! eF?  gH",
        "ALL CAPS. AND MORE",
        "x\ty.\nz",
        "camelCaseAndPascalCase",
        "...wait. what?! ok",
    ] {
        let once = sentence_case(text);
        assert!(once.is_ascii());
        assert_eq!(sentence_case(&once), once);
    }
}

#[test]
fn exhaustive_short_ascii_texts_are_fixed_by_the_second_pass() {
    let alphabet = ['a', 'B', '.', ' ', '-'];
    let mut texts: Vec<String> = vec![String::new()];
    for _ in 0..5 {
        let mut longer: Vec<String> = Vec::new();
        for t in &texts {
            for c in alphabet {
                let mut u = t.clone();
                u.push(c);
                longer.push(u);
            }
        }
        for t in &longer {
            let once = sentence_case(t);
            assert_eq!(sentence_case(&once), once);
        }
        texts = longer;
    }
}

#[test]
fn pass_can_be_driven_step_by_step() {
    let mut state = CaseState::new();
    assert!(state.capitalize_next);
    assert!(!state.after_lowercase);
    assert!(!state.after_sentence_end);
    let mut out: Vec<char> = Vec::new();
    state.step('a', &mut out);
    assert_eq!(out, vec!['A']);
    assert!(!state.capitalize_next && state.after_lowercase && !state.after_sentence_end);
    state.step('B', &mut out);
    assert_eq!(out, vec!['A', ' ', 'b']);
    assert!(!state.after_lowercase);
    state.step('.', &mut out);
    assert!(state.after_sentence_end && !state.capitalize_next);
    state.step(' ', &mut out);
    assert!(state.capitalize_next && !state.after_sentence_end);
    state.step('c', &mut out);
    assert_eq!(out, vec!['A', ' ', 'b', '.', ' ', 'C']);
}
