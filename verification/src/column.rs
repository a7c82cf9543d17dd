//! Columns, as the column runtime holds them.
//!
//! A column is opaque here: what it holds has a name, and each call into the
//! runtime is believed to do to that content what its contract says.

use vstd::prelude::*;
use polars::prelude::ListBuilderTrait;
use polars::prelude::ListChunked;
use polars::prelude::ListStringChunkedBuilder;
use polars::prelude::NamedFrom;
use polars::prelude::PolarsError;
use polars::prelude::Series;
use polars::prelude::StringChunked;
use crate::text::texts;

verus! {

/// A column of nullable strings: a `StringChunked` of the runtime. Verified
/// code never looks inside; it speaks of the column by `column_values`.
#[verifier::external_body]
pub struct StringColumn {
    pub inner: StringChunked,
}

/// A column of nullable lists of strings: a `ListChunked` of the runtime.
/// Verified code never looks inside; it speaks of the column by
/// `list_values`.
#[verifier::external_body]
pub struct ListColumn {
    pub inner: ListChunked,
}

/// The runtime's builder of a list column, carried as it is.
#[verifier::external_type_specification]
#[verifier::external_body]
pub struct ExListStringChunkedBuilder(ListStringChunkedBuilder);

/// The runtime's error, carried as it is.
#[verifier::external_type_specification]
#[verifier::external_body]
pub struct ExPolarsError(PolarsError);

/// The values of a string column, in order; `None` stands for a null.
pub uninterp spec fn column_values(column: StringColumn) -> Seq<Option<Seq<char>>>;

/// The values of a list column, in order; `None` stands for a null.
pub uninterp spec fn list_values(column: ListColumn) -> Seq<Option<Seq<Seq<char>>>>;

/// The rows that a builder of a list column has taken so far, in order.
pub uninterp spec fn builder_rows(builder: ListStringChunkedBuilder) -> Seq<Option<Seq<Seq<char>>>>;

/// What each cell of `v` holds, in order.
pub open spec fn cells(v: Seq<Option<String>>) -> Seq<Option<Seq<char>>> {
    Seq::new(
        v.len(),
        |i: int|
            match v[i] {
                Some(s) => Some(s@),
                None => None,
            },
    )
}

/// Whether `f` may return a string of the characters `r` on a string of the
/// characters `v`.
pub open spec fn maps_to<F: Fn(&str) -> String>(f: F, v: Seq<char>, r: Seq<char>) -> bool {
    exists|s: &str, t: String| s@ == v && t@ == r && f.ensures((s,), t)
}

/// `ChunkedArray::iter` walks the column from its first row to its last and
/// yields each value, a null as `None`. The values are copied out in that
/// order.
#[verifier::external_body]
pub(crate) fn values(column: &StringColumn) -> (out: Vec<Option<String>>)
    ensures
        cells(out@) == column_values(*column),
{
    column.inner.iter().map(|v| v.map(|s| s.to_owned())).collect()
}

/// `ChunkedArray::apply_into_string_amortized` makes a column of the same
/// length in which every null stays a null and every other value is replaced
/// by what the function writes for it: here, what `f` returns on it.
#[verifier::external_body]
pub(crate) fn map_strings<F: Fn(&str) -> String>(
    column: &StringColumn,
    f: F,
) -> (out: StringColumn)
    requires
        forall|s: &str| f.requires((s,)),
    ensures
        column_values(out).len() == column_values(*column).len(),
        forall|i: int|
            0 <= i < column_values(*column).len() ==> match (#[trigger] column_values(*column)[i]) {
                None => column_values(out)[i] is None,
                Some(v) => column_values(out)[i] is Some && maps_to(
                    f,
                    v,
                    column_values(out)[i]->0,
                ),
            },
{
    StringColumn {
        inner: column.inner.apply_into_string_amortized(
            |v: &str, buf: &mut String| buf.push_str(&f(v)),
        ),
    }
}

/// `StringChunked::from_iter`, on the strings of `items`, each as a value:
/// it makes a column without nulls that holds them in order.
#[verifier::external_body]
pub(crate) fn from_strings(items: &Vec<String>) -> (out: StringColumn)
    ensures
        column_values(out) == texts(items@).map_values(|s: Seq<char>| Some(s)),
{
    StringColumn { inner: items.iter().map(|s| Some(s.as_str())).collect::<StringChunked>() }
}

/// `ListStringChunkedBuilder::new` makes a builder that has taken no row.
/// The two capacities are hints.
#[verifier::external_body]
pub(crate) fn new_builder(
    name: &str,
    capacity: usize,
    values_capacity: usize,
) -> (builder: ListStringChunkedBuilder)
    ensures
        builder_rows(builder) == Seq::<Option<Seq<Seq<char>>>>::empty(),
{
    ListStringChunkedBuilder::new(name.into(), capacity, values_capacity)
}

/// `ListBuilderTrait::append_null` adds one null row.
#[verifier::external_body]
pub(crate) fn append_null(builder: &mut ListStringChunkedBuilder)
    ensures
        builder_rows(*final(builder)) == builder_rows(*old(builder)).push(None),
{
    builder.append_null()
}

/// `ListBuilderTrait::append_series`, on the series that `Series::new` makes
/// of `items`. That series is of strings, and the builder refuses none but a
/// series that is not: the answer is `Ok`, and the builder has taken one more
/// row, the list of the items in order.
#[verifier::external_body]
pub(crate) fn append_strings(
    builder: &mut ListStringChunkedBuilder,
    items: &Vec<String>,
) -> (r: Result<(), PolarsError>)
    ensures
        r is Ok,
        builder_rows(*final(builder)) == builder_rows(*old(builder)).push(Some(texts(items@))),
{
    builder.append_series(&Series::new("".into(), items))
}

/// `ListBuilderTrait::finish` makes the column of the rows that the builder
/// has taken.
#[verifier::external_body]
pub(crate) fn finish(builder: &mut ListStringChunkedBuilder) -> (out: ListColumn)
    ensures
        list_values(out) == builder_rows(*old(builder)),
{
    ListColumn { inner: builder.finish() }
}

/// `PolarsError` as `Display` writes it. Nothing is claimed of the words.
#[verifier::external_body]
pub(crate) fn error_text(error: &PolarsError) -> String {
    error.to_string()
}

} // verus!
