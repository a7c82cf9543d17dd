//! The transformations, column by column.
//!
//! Every transformation but one gives a column as long as the one it is
//! given, with a null wherever that column has one. The delimiter splitter
//! is the exception: it gives one row for each piece, and none for a null.

use vstd::prelude::*;
use crate::boundary::{segments, split_chars_at, Boundary};
use crate::classify::ascii_text;
use crate::column::{
    append_null, append_strings, builder_rows, cells, column_values, error_text, finish,
    from_strings, list_values, map_strings, new_builder, values, ListColumn, StringColumn,
};
use crate::delimiter::{split_chars_on, trimmed_pieces, SplitByCharsKwargs};
use crate::pig_latin::{pig_latin, pig_latin_text};
use crate::sentence::{sentence_case, sentence_case_text};
use crate::sponge::{letter_count, same_but_for_case, sponge_case, sponge_text};
use crate::text::{chars_of, strings_of, texts};

verus! {

/// What the builder of a list column answers where it takes no row. It takes
/// every list of strings, so no splitter returns this: the type is there for
/// the answer of the runtime to have a place in the signatures.
#[derive(Debug)]
pub struct SplitError {
    /// The index of the row.
    pub row: usize,
    /// What the runtime said.
    pub reason: String,
}

/// The column in which every value of `column` is replaced by what `f` makes
/// of it, and every null stays a null.
pub open spec fn mapped(
    column: Seq<Option<Seq<char>>>,
    f: spec_fn(Seq<char>) -> Seq<char>,
) -> Seq<Option<Seq<char>>> {
    Seq::new(
        column.len(),
        |i: int|
            match column[i] {
                Some(v) => Some(f(v)),
                None => None,
            },
    )
}

/// The column of the segments of each value of `column`, with a null for
/// every null.
pub open spec fn segmented(
    column: Seq<Option<Seq<char>>>,
    kind: Boundary,
) -> Seq<Option<Seq<Seq<char>>>> {
    Seq::new(
        column.len(),
        |i: int|
            match column[i] {
                Some(v) => Some(segments(kind, v)),
                None => None,
            },
    )
}

/// The trimmed pieces of every value of `column`, row after row. A null
/// gives no piece.
pub open spec fn split_rows(
    column: Seq<Option<Seq<char>>>,
    delimiters: Seq<char>,
) -> Seq<Seq<char>>
    decreases column.len(),
{
    if column.len() == 0 {
        Seq::empty()
    } else {
        split_rows(column.drop_last(), delimiters) + match column.last() {
            Some(v) => trimmed_pieces(v, delimiters),
            None => Seq::empty(),
        }
    }
}

/// Whether `out` is `column` in sponge case: as long as `column`, with a
/// null for every null and, for every other value, that value under some
/// tosses of the coin, one for each of its letters. An ASCII value has kept
/// its length and changed nothing but the case of its letters.
pub open spec fn sponged(column: Seq<Option<Seq<char>>>, out: Seq<Option<Seq<char>>>) -> bool {
    &&& out.len() == column.len()
    &&& forall|i: int|
        0 <= i < column.len() ==> match (#[trigger] column[i]) {
            None => out[i] is None,
            Some(v) => {
                &&& out[i] is Some
                &&& exists|flips: Seq<bool>|
                    flips.len() == letter_count(v) && out[i]->0 == #[trigger] sponge_text(v, flips)
                &&& ascii_text(v) ==> same_but_for_case(v, out[i]->0)
            },
        }
}

/// A mapped column is as long as the column it is made from, and has its
/// nulls in the same rows.
pub proof fn lemma_mapped_keeps_nulls(
    column: Seq<Option<Seq<char>>>,
    f: spec_fn(Seq<char>) -> Seq<char>,
)
    ensures
        mapped(column, f).len() == column.len(),
        forall|i: int|
            0 <= i < column.len() ==> (#[trigger] mapped(column, f)[i] is None <==> column[i] is None),
{
}

/// A segmented column is as long as the column it is made from, and has its
/// nulls in the same rows: a null never becomes an empty list, nor an empty
/// string a null.
pub proof fn lemma_segmented_keeps_nulls(column: Seq<Option<Seq<char>>>, kind: Boundary)
    ensures
        segmented(column, kind).len() == column.len(),
        forall|i: int|
            0 <= i < column.len() ==> (#[trigger] segmented(column, kind)[i] is None
                <==> column[i] is None),
{
}

/// A column in sponge case is as long as the column it is made from, and has
/// its nulls in the same rows.
pub proof fn lemma_sponged_keeps_nulls(
    column: Seq<Option<Seq<char>>>,
    out: Seq<Option<Seq<char>>>,
)
    requires
        sponged(column, out),
    ensures
        out.len() == column.len(),
        forall|i: int| 0 <= i < column.len() ==> (#[trigger] out[i] is None <==> column[i] is None),
{
    assert forall|i: int| 0 <= i < column.len() implies (#[trigger] out[i] is None
        <==> column[i] is None) by {
        let _ = column[i];
    }
}

/// A null gives the delimiter splitter no row: a column with one more null
/// at its end is split into the same rows.
pub proof fn lemma_null_gives_no_row(column: Seq<Option<Seq<char>>>, delimiters: Seq<char>)
    ensures
        split_rows(column.push(None), delimiters) == split_rows(column, delimiters),
{
    assert(column.push(None).drop_last() =~= column);
    assert(split_rows(column, delimiters) + Seq::<Seq<char>>::empty() =~= split_rows(
        column,
        delimiters,
    ));
}

/// A column that holds nothing but nulls is split into no row at all.
pub proof fn lemma_nulls_give_no_rows(column: Seq<Option<Seq<char>>>, delimiters: Seq<char>)
    requires
        forall|i: int| 0 <= i < column.len() ==> column[i] is None,
    ensures
        split_rows(column, delimiters).len() == 0,
    decreases column.len(),
{
    if column.len() > 0 {
        lemma_nulls_give_no_rows(column.drop_last(), delimiters);
    }
}

/// Pig latin of every value of the column. A null stays a null.
pub fn pig_latinnify(column: &StringColumn) -> (out: StringColumn)
    ensures
        column_values(out) == mapped(column_values(*column), |v: Seq<char>| pig_latin_text(v)),
{
    let out = map_strings(column, pig_latin);
    assert(column_values(out) =~= mapped(
        column_values(*column),
        |v: Seq<char>| pig_latin_text(v),
    )) by {
        assert forall|i: int| 0 <= i < column_values(*column).len() implies column_values(out)[i]
            == mapped(column_values(*column), |v: Seq<char>| pig_latin_text(v))[i] by {
            let _ = column_values(*column)[i];
        }
    }
    out
}

/// Every value of the column in sentence case. A null stays a null.
pub fn to_sentence_case(column: &StringColumn) -> (out: StringColumn)
    ensures
        column_values(out) == mapped(
            column_values(*column),
            |v: Seq<char>| sentence_case_text(v),
        ),
{
    let out = map_strings(column, sentence_case);
    assert(column_values(out) =~= mapped(
        column_values(*column),
        |v: Seq<char>| sentence_case_text(v),
    )) by {
        assert forall|i: int| 0 <= i < column_values(*column).len() implies column_values(out)[i]
            == mapped(column_values(*column), |v: Seq<char>| sentence_case_text(v))[i] by {
            let _ = column_values(*column)[i];
        }
    }
    out
}

/// Every value of the column in sponge case, each letter under a toss of
/// its own. A null stays a null. Two calls on one column may differ.
pub fn to_sponge_case(column: &StringColumn) -> (out: StringColumn)
    ensures
        sponged(column_values(*column), column_values(out)),
{
    let out = map_strings(column, sponge_case);
    assert forall|i: int| 0 <= i < column_values(*column).len() implies match (
    #[trigger] column_values(*column)[i]) {
        None => column_values(out)[i] is None,
        Some(v) => {
            &&& column_values(out)[i] is Some
            &&& exists|flips: Seq<bool>|
                flips.len() == letter_count(v) && column_values(out)[i]->0 == #[trigger] sponge_text(
                    v,
                    flips,
                )
            &&& ascii_text(v) ==> same_but_for_case(v, column_values(out)[i]->0)
        },
    } by {
        let _ = column_values(*column)[i];
    }
    out
}

/// The trimmed pieces of every value of the column, one row for each piece.
///
/// Unlike every other transformation this one does not keep the number of
/// rows: a value gives one row more than it holds delimiters, and a null
/// gives none. The column that comes back holds no null.
pub fn split_by_chars(column: &StringColumn, kwargs: SplitByCharsKwargs) -> (out: StringColumn)
    ensures
        column_values(out) == split_rows(column_values(*column), kwargs.characters@).map_values(
            |p: Seq<char>| Some(p),
        ),
{
    let cells_in = values(column);
    let delimiters = chars_of(kwargs.characters.as_str());
    let mut all_results: Vec<String> = Vec::new();
    let ghost col = column_values(*column);
    let mut i: usize = 0;
    assert(col.take(0) =~= Seq::<Option<Seq<char>>>::empty());
    assert(texts(all_results@) =~= split_rows(col.take(0), delimiters@));
    while i < cells_in.len()
        invariant
            i <= cells_in.len(),
            col == cells(cells_in@),
            texts(all_results@) == split_rows(col.take(i as int), delimiters@),
        decreases cells_in.len() - i,
    {
        let ghost before = all_results@;
        proof {
            assert(col.take(i + 1).drop_last() =~= col.take(i as int));
            assert(col.take(i + 1).last() == col[i as int]);
        }
        match &cells_in[i] {
            Some(s) => {
                let chars = chars_of(s.as_str());
                let parts = split_chars_on(&chars, &delimiters);
                let mut pieces = strings_of(&parts);
                let ghost added = pieces@;
                all_results.append(&mut pieces);
                assert(texts(all_results@) =~= texts(before) + texts(added));
            },
            None => {
                assert(texts(all_results@) + Seq::<Seq<char>>::empty() =~= texts(all_results@));
            },
        }
        i += 1;
    }
    assert(col.take(i as int) =~= col);
    from_strings(&all_results)
}

/// The segments of every value of the column at the boundaries of `kind`,
/// one list for each row. A null stays a null, and the empty string gives
/// the empty list. No column is refused.
pub fn split_column(column: &StringColumn, kind: Boundary) -> (r: Result<ListColumn, SplitError>)
    ensures
        r is Ok,
        list_values(r->Ok_0) == segmented(column_values(*column), kind),
{
    let cells_in = values(column);
    let mut builder = new_builder("", cells_in.len(), 0);
    let ghost col = column_values(*column);
    let mut i: usize = 0;
    while i < cells_in.len()
        invariant
            i <= cells_in.len(),
            col == cells(cells_in@),
            col == column_values(*column),
            builder_rows(builder) == segmented(col.take(i as int), kind),
        decreases cells_in.len() - i,
    {
        let ghost before = builder_rows(builder);
        match &cells_in[i] {
            Some(s) => {
                let chars = chars_of(s.as_str());
                let parts = strings_of(&split_chars_at(kind, &chars));
                match append_strings(&mut builder, &parts) {
                    Ok(_) => {},
                    Err(e) => {
                        return Err(SplitError { row: i, reason: error_text(&e) });
                    },
                }
            },
            None => {
                append_null(&mut builder);
            },
        }
        assert(builder_rows(builder) =~= segmented(col.take(i + 1), kind)) by {
            assert(builder_rows(builder) == before.push(segmented(col, kind)[i as int]));
        }
        i += 1;
    }
    assert(col.take(i as int) =~= col);
    Ok(finish(&mut builder))
}

/// The segments of every value of the column, cut behind each lowercase
/// character that an uppercase character follows.
pub fn split_by_lowercase_to_uppercase(
    column: &StringColumn,
) -> (r: Result<ListColumn, SplitError>)
    ensures
        r is Ok,
        list_values(r->Ok_0) == segmented(column_values(*column), Boundary::LowerToUpper),
{
    split_column(column, Boundary::LowerToUpper)
}

/// The segments of every value of the column, cut behind each uppercase
/// character that a lowercase character follows.
pub fn split_by_uppercase_to_lowercase(
    column: &StringColumn,
) -> (r: Result<ListColumn, SplitError>)
    ensures
        r is Ok,
        list_values(r->Ok_0) == segmented(column_values(*column), Boundary::UpperToLower),
{
    split_column(column, Boundary::UpperToLower)
}

/// The segments of every value of the column, cut behind each ASCII digit
/// that anything else follows.
pub fn split_by_digit_to_nondigit(column: &StringColumn) -> (r: Result<ListColumn, SplitError>)
    ensures
        r is Ok,
        list_values(r->Ok_0) == segmented(column_values(*column), Boundary::DigitToNondigit),
{
    split_column(column, Boundary::DigitToNondigit)
}

/// The segments of every value of the column, cut before each ASCII digit
/// that follows anything else.
pub fn split_by_nondigit_to_digit(column: &StringColumn) -> (r: Result<ListColumn, SplitError>)
    ensures
        r is Ok,
        list_values(r->Ok_0) == segmented(column_values(*column), Boundary::NondigitToDigit),
{
    split_column(column, Boundary::NondigitToDigit)
}

} // verus!
