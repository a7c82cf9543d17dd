use polars::prelude::{ListChunked, StringChunked};
use witt_strutil::boundary::Boundary;
use witt_strutil::column::{ListColumn, StringColumn};
use witt_strutil::delimiter::SplitByCharsKwargs;
use witt_strutil::expressions::{
    pig_latinnify, split_by_chars, split_by_digit_to_nondigit, split_by_lowercase_to_uppercase,
    split_by_nondigit_to_digit, split_by_uppercase_to_lowercase, split_column, to_sentence_case,
    to_sponge_case,
};

fn column(cells: &[Option<&str>]) -> StringColumn {
    StringColumn { inner: cells.iter().copied().collect::<StringChunked>() }
}

fn cells(column: &StringColumn) -> Vec<Option<String>> {
    column.inner.iter().map(|v| v.map(|s| s.to_string())).collect()
}

fn lists(column: &ListColumn) -> Vec<Option<Vec<String>>> {
    let inner: &ListChunked = &column.inner;
    (0..inner.len())
        .map(|i| {
            inner.get_as_series(i).map(|s| {
                s.str().unwrap().iter().map(|v| v.unwrap().to_string()).collect()
            })
        })
        .collect()
}

fn some(s: &str) -> Option<String> {
    Some(s.to_string())
}

fn list(items: &[&str]) -> Option<Vec<String>> {
    Some(items.iter().map(|s| s.to_string()).collect())
}

#[test]
fn pig_latin_column_keeps_nulls_and_length() {
    let out = pig_latinnify(&column(&[Some("eat pig"), None, Some(""), Some("Banana.")]));
    assert_eq!(cells(&out), vec![some("eatway igpay"), None, some(""), some("AnanaBay.")]);
}

#[test]
fn pig_latin_column_of_no_rows_has_no_rows() {
    let out = pig_latinnify(&column(&[]));
    assert_eq!(cells(&out), Vec::<Option<String>>::new());
}

#[test]
fn sentence_case_column_keeps_nulls_and_length() {
    let out = to_sentence_case(&column(&[None, Some("hello world. this IS a TEST"), None]));
    assert_eq!(cells(&out), vec![None, some("Hello world. This is a test"), None]);
}

#[test]
fn sponge_case_column_keeps_nulls_and_changes_nothing_but_case() {
    let input = [Some("Hello, World!"), None, Some(""), Some("123")];
    let out = cells(&to_sponge_case(&column(&input)));
    assert_eq!(out.len(), 4);
    assert_eq!(out[1], None);
    assert_eq!(out[2], some(""));
    assert_eq!(out[3], some("123"));
    let first = out[0].clone().unwrap();
    assert_eq!(first.to_lowercase(), "hello, world!");
    assert_eq!(first.len(), "Hello, World!".len());
}

#[test]
fn delimiter_split_gives_one_row_for_each_piece() {
    let kwargs = SplitByCharsKwargs::new(String::from(",;"));
    let out = split_by_chars(&column(&[Some("a, b; c")]), kwargs);
    assert_eq!(cells(&out), vec![some("a"), some("b"), some("c")]);
}

#[test]
fn delimiter_split_gives_no_row_for_a_null() {
    let kwargs = SplitByCharsKwargs::new(String::from(","));
    let out = split_by_chars(&column(&[Some("a, b"), None, Some("c"), None, Some("")]), kwargs);
    assert_eq!(cells(&out), vec![some("a"), some("b"), some("c"), some("")]);
    let kwargs = SplitByCharsKwargs::new(String::from(","));
    let out = split_by_chars(&column(&[None, None]), kwargs);
    assert_eq!(cells(&out), Vec::<Option<String>>::new());
}

#[test]
fn delimiter_split_without_delimiters_trims_each_row() {
    let kwargs = SplitByCharsKwargs::new(String::new());
    let out = split_by_chars(&column(&[Some("  a, b "), Some("c")]), kwargs);
    assert_eq!(cells(&out), vec![some("a, b"), some("c")]);
}

#[test]
fn lower_to_upper_column_gives_a_list_for_each_row() {
    let input = column(&[Some("camelCase"), None, Some(""), Some("hello")]);
    let out = split_by_lowercase_to_uppercase(&input).unwrap();
    assert_eq!(lists(&out), vec![list(&["camel", "Case"]), None, list(&[]), list(&["hello"])]);
}

#[test]
fn upper_to_lower_column_gives_a_list_for_each_row() {
    let input = column(&[None, Some("HelloWorld"), Some("abc")]);
    let out = split_by_uppercase_to_lowercase(&input).unwrap();
    assert_eq!(lists(&out), vec![None, list(&["H", "elloW", "orld"]), list(&["abc"])]);
}

#[test]
fn digit_to_nondigit_column_gives_a_list_for_each_row() {
    let input = column(&[Some("abc123def456"), Some(""), None]);
    let out = split_by_digit_to_nondigit(&input).unwrap();
    assert_eq!(lists(&out), vec![list(&["abc123", "def456"]), list(&[]), None]);
}

#[test]
fn nondigit_to_digit_column_gives_a_list_for_each_row() {
    let input = column(&[Some("abc123def456"), None, Some("7")]);
    let out = split_by_nondigit_to_digit(&input).unwrap();
    assert_eq!(lists(&out), vec![list(&["abc", "123def", "456"]), None, list(&["7"])]);
}

#[test]
fn column_of_nulls_gives_a_column_of_nulls() {
    let input = column(&[None, None, None]);
    for kind in [
        Boundary::LowerToUpper,
        Boundary::UpperToLower,
        Boundary::DigitToNondigit,
        Boundary::NondigitToDigit,
    ] {
        let out = split_column(&input, kind).unwrap();
        assert_eq!(lists(&out), vec![None, None, None]);
    }
    assert_eq!(cells(&pig_latinnify(&input)), vec![None, None, None]);
    assert_eq!(cells(&to_sentence_case(&input)), vec![None, None, None]);
    assert_eq!(cells(&to_sponge_case(&input)), vec![None, None, None]);
}

#[test]
fn every_column_of_strings_is_taken() {
    let input = column(&[Some("camelCase"), Some(""), None, Some("a1B2"), Some("\u{df}\u{c4}")]);
    for kind in [
        Boundary::LowerToUpper,
        Boundary::UpperToLower,
        Boundary::DigitToNondigit,
        Boundary::NondigitToDigit,
    ] {
        let out = split_column(&input, kind);
        assert!(out.is_ok());
        let rows = lists(&out.unwrap());
        assert_eq!(rows.len(), 5);
        assert_eq!(rows[1], list(&[]));
        assert_eq!(rows[2], None);
        assert_eq!(rows[0].clone().unwrap().concat(), "camelCase");
        assert_eq!(rows[3].clone().unwrap().concat(), "a1B2");
    }
}

#[test]
fn empty_column_gives_an_empty_list_column() {
    let out = split_column(&column(&[]), Boundary::LowerToUpper).unwrap();
    assert_eq!(lists(&out), Vec::<Option<Vec<String>>>::new());
}
