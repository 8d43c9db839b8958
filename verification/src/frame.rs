//! The data frames that market data travels in, as far as the library looks
//! into them: the names and types of their columns, and their rows.

use polars::prelude::{Column, DataFrame, DataType, PolarsError};
use vstd::prelude::*;

verus! {

/// `polars::prelude::DataFrame`: a table of named, typed columns of equal length.
#[verifier::external_type_specification]
#[verifier::external_body]
pub struct ExDataFrame(DataFrame);

/// `polars::prelude::Column`, the element type that indexing a frame yields.
#[verifier::external_type_specification]
#[verifier::external_body]
pub struct ExColumn(Column);

/// `polars::prelude::PolarsError`, carried through as the cause of a failure.
#[verifier::external_type_specification]
#[verifier::external_body]
pub struct ExPolarsError(PolarsError);

/// The column types that feature selection tells apart.
#[derive(Clone, Copy, Debug, PartialEq, Eq, Structural)]
pub enum ColumnType {
    Float64,
    Int64,
    Other,
}

/// The names of a frame's columns, in column order.
pub uninterp spec fn frame_columns(frame: DataFrame) -> Seq<Seq<char>>;

/// The type of each of a frame's columns, by column name.
pub uninterp spec fn frame_types(frame: DataFrame) -> Map<Seq<char>, ColumnType>;

/// The names of a frame's columns that polars can convert to `Float64`.
pub uninterp spec fn frame_castable(frame: DataFrame) -> Set<Seq<char>>;

/// A frame's rows from the first to the last: the cells of a row in column
/// order, each as the bytes of its value, `None` where the value is missing.
pub uninterp spec fn frame_rows(frame: DataFrame) -> Seq<Seq<Option<Seq<u8>>>>;

/// `DataFrame::height`: the number of rows.
#[verifier::external_body]
pub(crate) fn height(frame: &DataFrame) -> (rows: usize)
    ensures
        rows == frame_rows(*frame).len(),
{
    frame.height()
}

/// `DataFrame::slice` for a range that lies within the frame: the result has the
/// frame's columns, and of its rows those from `offset` on, `length` of them.
/// (With an offset below zero, or a range that reaches beyond the last row, polars
/// counts from the end or cuts the range short; frames of more than `i64::MAX`
/// rows make it panic.)
#[verifier::external_body]
pub(crate) fn slice(frame: &DataFrame, offset: i64, length: usize) -> (part: DataFrame)
    requires
        0 <= offset,
        offset + length <= frame_rows(*frame).len() <= i64::MAX,
    ensures
        frame_columns(part) == frame_columns(*frame),
        frame_types(part) == frame_types(*frame),
        frame_rows(part) == frame_rows(*frame).subrange(offset as int, offset + length),
{
    frame.slice(offset, length)
}

/// `DataFrame::get_column_names`: the names of the columns, in column order.
#[verifier::external_body]
pub(crate) fn column_names(frame: &DataFrame) -> (names: Vec<String>)
    ensures
        crate::text::texts(names@) == frame_columns(*frame),
{
    frame.get_column_names().iter().map(|name| name.to_string()).collect()
}

/// `DataFrame::column`, then `Column::dtype`: the type of the column of that name;
/// an error exactly where the frame has no such column.
#[verifier::external_body]
pub(crate) fn column_type(frame: &DataFrame, name: &str) -> (found: Result<ColumnType, PolarsError>)
    ensures
        found is Ok <==> frame_columns(*frame).contains(name@),
        found matches Ok(kind) ==> kind == frame_types(*frame)[name@],
{
    frame.column(name).map(
        |column| match column.dtype() {
            DataType::Float64 => ColumnType::Float64,
            DataType::Int64 => ColumnType::Int64,
            _ => ColumnType::Other,
        },
    )
}

/// `DataFrame::column`, then `Column::cast` to `DataType::Float64`, of which only
/// the error is kept. Whether there is one depends on the frame and the name alone;
/// a column of `Float64` or `Int64` values can always be converted.
#[verifier::external_body]
pub(crate) fn float_cast_error(frame: &DataFrame, name: &str) -> (failure: Option<PolarsError>)
    ensures
        (failure is None) == (frame_columns(*frame).contains(name@) && frame_castable(
            *frame,
        ).contains(name@)),
        (frame_columns(*frame).contains(name@) && frame_types(*frame)[name@] != ColumnType::Other)
            ==> failure is None,
{
    frame.column(name).and_then(|column| column.cast(&DataType::Float64)).err()
}

} // verus!
