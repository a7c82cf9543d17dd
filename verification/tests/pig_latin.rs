use witt_strutil::pig_latin::{pig_latin, pig_latin_word};

#[test]
fn vowel_initial_word_gets_way() {
    assert_eq!(pig_latin("eat"), "eatway");
    assert_eq!(pig_latin_word("eat"), "eatway");
}

#[test]
fn leading_consonant_moves_to_the_end() {
    assert_eq!(pig_latin("pig"), "igpay");
    assert_eq!(pig_latin_word("pig"), "igpay");
}

#[test]
fn consonant_cluster_moves_as_a_whole() {
    assert_eq!(pig_latin_word("string"), "ingstray");
    assert_eq!(pig_latin_word("quick"), "uickqay");
    assert_eq!(pig_latin_word("the"), "ethay");
}

#[test]
fn capital_is_restored_on_the_first_character_only() {
    assert_eq!(pig_latin("Banana"), "AnanaBay");
    assert_eq!(pig_latin_word("Hello"), "ElloHay");
    assert_eq!(pig_latin_word("Apple"), "Appleway");
    assert_eq!(pig_latin_word("BY"), "BYay");
}

#[test]
fn closing_punctuation_is_preserved() {
    assert_eq!(pig_latin("pig."), "igpay.");
    assert_eq!(pig_latin_word("Hello,"), "ElloHay,");
    assert_eq!(pig_latin_word("eat!"), "eatway!");
}

#[test]
fn only_the_last_punctuation_character_is_set_aside() {
    assert_eq!(pig_latin_word("hi!!"), "i!hay!");
    assert_eq!(pig_latin_word("don't"), "on'tday");
}

#[test]
fn word_without_a_vowel_moves_whole() {
    assert_eq!(pig_latin_word("by"), "byay");
    assert_eq!(pig_latin_word("b"), "bay");
    assert_eq!(pig_latin_word("xyz"), "xyzay");
    assert_eq!(pig_latin_word("by."), "byay.");
}

#[test]
fn empty_word_stays_empty() {
    assert_eq!(pig_latin_word(""), "");
    assert_eq!(pig_latin(""), "");
}

#[test]
fn lone_punctuation_comes_back_as_it_is() {
    assert_eq!(pig_latin_word("."), ".");
    assert_eq!(pig_latin("pig - eat"), "igpay - eatway");
}

#[test]
fn words_are_read_by_code_points() {
    assert_eq!(pig_latin_word("\u{f1}and\u{fa}"), "and\u{fa}\u{f1}ay");
    assert_eq!(pig_latin_word("\u{f1}"), "\u{f1}ay");
    assert_eq!(pig_latin_word("\u{e9}t\u{e9}"), "\u{e9}t\u{e9}ay");
}

#[test]
fn whitespace_of_the_text_is_not_kept() {
    assert_eq!(pig_latin("  hello   world  "), "ellohay orldway");
    assert_eq!(pig_latin("the\tquick\nfox"), "ethay uickqay oxfay");
    assert_eq!(pig_latin("   "), "");
    assert_eq!(pig_latin("a\u{a0}b"), "away bay");
}

#[test]
fn each_word_is_taken_by_itself() {
    assert_eq!(pig_latin("Hello, world!"), "ElloHay, orldway!");
    let text = "eat pig string";
    let by_word: Vec<String> = text.split_whitespace().map(|w| pig_latin_word(w)).collect();
    assert_eq!(pig_latin(text), by_word.join(" "));
}
