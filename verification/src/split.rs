//! Splitting a data set by time: the earlier rows for training, the later ones
//! for testing or validation.

use polars::prelude::DataFrame;
use vstd::prelude::*;

use crate::frame::{height, slice};
use crate::ratio::validation_row;
use crate::share::training_rows;

verus! {

/// `earlier` and `later` are the rows of `frame` before and from row `row` on,
/// with all its columns.
pub open spec fn is_split(frame: DataFrame, row: int, earlier: DataFrame, later: DataFrame) -> bool {
    let rows = crate::frame::frame_rows(frame);
    &&& crate::frame::frame_rows(earlier) == rows.take(row)
    &&& crate::frame::frame_rows(later) == rows.skip(row)
    &&& crate::frame::frame_columns(earlier) == crate::frame::frame_columns(frame)
    &&& crate::frame::frame_columns(later) == crate::frame::frame_columns(frame)
    &&& crate::frame::frame_types(earlier) == crate::frame::frame_types(frame)
    &&& crate::frame::frame_types(later) == crate::frame::frame_types(frame)
}

/// Splits a frame before row `row`.
pub fn split_at_row(frame: &DataFrame, row: usize) -> (parts: (DataFrame, DataFrame))
    requires
        row <= crate::frame::frame_rows(*frame).len() <= i64::MAX,
    ensures
        is_split(*frame, row as int, parts.0, parts.1),
        crate::frame::frame_rows(parts.0) == crate::frame::frame_rows(*frame).take(row as int),
        crate::frame::frame_rows(parts.1) == crate::frame::frame_rows(*frame).skip(row as int),
        crate::frame::frame_columns(parts.0) == crate::frame::frame_columns(*frame),
        crate::frame::frame_columns(parts.1) == crate::frame::frame_columns(*frame),
        crate::frame::frame_types(parts.0) == crate::frame::frame_types(*frame),
        crate::frame::frame_types(parts.1) == crate::frame::frame_types(*frame),
{
    let rows: usize = height(frame);
    let earlier = slice(frame, 0, row);
    let later = slice(frame, row as i64, rows - row);
    (earlier, later)
}

/// Splits a frame into the rows to train on, the first four fifths, and the rows
/// to test on.
pub fn split_train_test(frame: &DataFrame) -> (parts: (DataFrame, DataFrame))
    requires
        crate::frame::frame_rows(*frame).len() <= i64::MAX,
    ensures
        is_split(
            *frame,
            crate::share::training_share(crate::frame::frame_rows(*frame).len()) as int,
            parts.0,
            parts.1,
        ),
        crate::frame::frame_rows(parts.0) + crate::frame::frame_rows(parts.1)
            == crate::frame::frame_rows(*frame),
        crate::frame::frame_rows(*frame).len() <= 0x4_0000_0000_0000
            ==> crate::frame::frame_rows(parts.0).len() == 4 * crate::frame::frame_rows(
            *frame,
        ).len() / 5,
{
    let row: usize = training_rows(height(frame));
    let parts = split_at_row(frame, row);
    proof {
        split_is_partition(*frame, row as int, parts.0, parts.1);
    }
    parts
}

/// Splits a frame before row `row` if it has that many rows, and no more than can
/// be counted in 63 bits.
pub fn try_split_at_row(frame: &DataFrame, row: usize) -> (parts: Option<(DataFrame, DataFrame)>)
    ensures
        match parts {
            Some((earlier, later)) => {
                &&& row <= crate::frame::frame_rows(*frame).len() <= i64::MAX
                &&& is_split(*frame, row as int, earlier, later)
                &&& crate::frame::frame_rows(earlier) == crate::frame::frame_rows(*frame).take(
                    row as int,
                )
                &&& crate::frame::frame_rows(later) == crate::frame::frame_rows(*frame).skip(
                    row as int,
                )
            },
            None => !(row <= crate::frame::frame_rows(*frame).len() <= i64::MAX),
        },
{
    let rows: usize = height(frame);
    if row <= rows && rows as u64 <= i64::MAX as u64 {
        Some(split_at_row(frame, row))
    } else {
        None
    }
}

/// Splits a frame into the rows to train on and the rows to test on if it has no
/// more rows than can be counted in 63 bits.
pub fn try_split_train_test(frame: &DataFrame) -> (parts: Option<(DataFrame, DataFrame)>)
    ensures
        match parts {
            Some((train, test)) => {
                &&& crate::frame::frame_rows(*frame).len() <= i64::MAX
                &&& is_split(
                    *frame,
                    crate::share::training_share(crate::frame::frame_rows(*frame).len()) as int,
                    train,
                    test,
                )
            },
            None => crate::frame::frame_rows(*frame).len() > i64::MAX,
        },
        parts matches Some((train, test)) ==> {
            let rows = crate::frame::frame_rows(*frame);
            &&& crate::frame::frame_rows(train) + crate::frame::frame_rows(test) == rows
            &&& rows.len() <= 0x4_0000_0000_0000 ==> crate::frame::frame_rows(train).len() == 4
                * rows.len() / 5
        },
{
    if height(frame) as u64 <= i64::MAX as u64 {
        Some(split_train_test(frame))
    } else {
        None
    }
}

/// Splits a frame into the rows to train on and those to validate with, which are a
/// ratio of all rows, a double with the bits `ratio_bits`. There is no such split if
/// it would lie beyond the last row, or if the frame has more rows than can be
/// counted in 63 bits.
pub fn try_split_for_validation(frame: &DataFrame, ratio_bits: u64) -> (parts: Option<
    (DataFrame, DataFrame),
>)
    ensures
        ({
            let rows = crate::frame::frame_rows(*frame).len();
            match parts {
                Some((train, validation)) => {
                    &&& rows <= i64::MAX
                    &&& crate::ratio::rows_kept(rows, ratio_bits) is Some
                    &&& is_split(
                        *frame,
                        crate::ratio::rows_kept(rows, ratio_bits)->0 as int,
                        train,
                        validation,
                    )
                },
                None => rows > i64::MAX || crate::ratio::rows_kept(rows, ratio_bits) is None,
            }
        }),
        parts matches Some((train, validation)) ==> crate::frame::frame_rows(train)
            + crate::frame::frame_rows(validation) == crate::frame::frame_rows(*frame),
        ratio_bits <= 0x3ff0_0000_0000_0000 && crate::frame::frame_rows(*frame).len()
            <= 0x4_0000_0000_0000 ==> (parts matches Some((train, validation)) && {
            let rows = crate::frame::frame_rows(*frame).len();
            let kept = crate::frame::frame_rows(train).len();
            let one = vstd::arithmetic::power2::pow2(crate::double::scale(ratio_bits));
            let exact = rows * (one - crate::double::numerator(ratio_bits));
            2 * (kept * one) <= 2 * exact + one && 2 * exact <= 2 * ((kept + 1) * one) + one
        }),
{
    let rows: usize = height(frame);
    proof {
        if ratio_bits <= 0x3ff0_0000_0000_0000 && rows <= 0x4_0000_0000_0000 {
            crate::ratio::kept_rows_follow_the_ratio(rows as nat, ratio_bits);
        }
    }
    if rows as u64 > i64::MAX as u64 {
        return None;
    }
    match validation_row(rows, ratio_bits) {
        Some(row) => {
            let parts = split_at_row(frame, row);
            proof {
                split_is_partition(*frame, row as int, parts.0, parts.1);
            }
            Some(parts)
        },
        None => None,
    }
}

/// A split loses no row, repeats none and keeps their order.
pub proof fn split_is_partition(frame: DataFrame, row: int, earlier: DataFrame, later: DataFrame)
    requires
        is_split(frame, row, earlier, later),
        0 <= row <= crate::frame::frame_rows(frame).len(),
    ensures
        crate::frame::frame_rows(earlier) + crate::frame::frame_rows(later)
            == crate::frame::frame_rows(frame),
        crate::frame::frame_rows(earlier).len() == row,
        crate::frame::frame_rows(later).len() == crate::frame::frame_rows(frame).len() - row,
{
    assert(crate::frame::frame_rows(earlier) + crate::frame::frame_rows(later)
        =~= crate::frame::frame_rows(frame));
}

/// A split divides the rows only: both parts have the columns of the whole, of the
/// same names and types and in the same order, and every row of the whole is in the
/// part that its number says.
pub proof fn split_keeps_columns_and_rows(
    frame: DataFrame,
    row: int,
    earlier: DataFrame,
    later: DataFrame,
    i: int,
)
    requires
        is_split(frame, row, earlier, later),
        0 <= row <= crate::frame::frame_rows(frame).len(),
        0 <= i < crate::frame::frame_rows(frame).len(),
    ensures
        crate::frame::frame_columns(earlier) == crate::frame::frame_columns(frame),
        crate::frame::frame_columns(later) == crate::frame::frame_columns(frame),
        crate::frame::frame_types(earlier) == crate::frame::frame_types(frame),
        crate::frame::frame_types(later) == crate::frame::frame_types(frame),
        i < row ==> crate::frame::frame_rows(earlier)[i] == crate::frame::frame_rows(frame)[i],
        i >= row ==> crate::frame::frame_rows(later)[i - row] == crate::frame::frame_rows(frame)[i],
{
}

} // verus!
