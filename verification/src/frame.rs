use vstd::prelude::*;
use polars::error::PolarsError;
use polars::frame::DataFrame;
use polars::prelude::SortMultipleOptions;
use crate::order::{is_reordering, key_le, reordered_column};

verus! {

/// The table type of polars. Its columns are read through `frame_height`,
/// `frame_text` and `frame_numbers`. What is said of a frame here holds of
/// the frames that polars builds with its checked constructors, in which
/// every column has as many cells as the frame has rows.
#[verifier::external_type_specification]
#[verifier::external_body]
pub struct ExDataFrame(polars::frame::DataFrame);

/// The column type of polars. A frame hands out slices of it, so the frame
/// cannot be declared without it; no function here takes or returns one.
#[verifier::external_type_specification]
#[verifier::external_body]
pub struct ExColumn(polars::frame::column::Column);

/// The error type of polars. It is carried from a call to the place where
/// the pipeline's own error is chosen, and never looked into.
#[verifier::external_type_specification]
#[verifier::external_body]
pub struct ExPolarsError(polars::error::PolarsError);

/// The number of rows of a frame.
pub uninterp spec fn frame_height(frame: DataFrame) -> nat;

/// The cells of the column of a frame that bears the name `column` and holds
/// strings, from the first row to the last, an empty cell as `None`. `None`
/// where the frame has no column of that name, or one of another type.
pub uninterp spec fn frame_text(frame: DataFrame, column: Seq<char>) -> Option<Seq<Option<Seq<char>>>>;

/// The cells of the column of a frame that bears the name `column` and holds
/// 64-bit floating-point numbers, each as its bit pattern, an empty cell as
/// `None`. `None` where the frame has no column of that name, or one of
/// another type.
pub uninterp spec fn frame_numbers(frame: DataFrame, column: Seq<char>) -> Option<Seq<Option<u64>>>;

/// A column of strings as the characters that its cells hold.
pub open spec fn text_view(cells: Seq<Option<String>>) -> Seq<Option<Seq<char>>> {
    Seq::new(
        cells.len(),
        |i: int|
            match cells[i] {
                Some(text) => Some(text@),
                None => None,
            },
    )
}

/// Whether `after` holds the rows of `before`, row `i` of `after` being row
/// `order[i]` of `before`, in every column of strings and of numbers.
pub open spec fn frame_follows(before: DataFrame, after: DataFrame, order: Seq<int>) -> bool {
    &&& frame_height(after) == frame_height(before)
    &&& forall|column: Seq<char>| #[trigger]
        frame_text(after, column) == reordered_column(frame_text(before, column), order)
    &&& forall|column: Seq<char>| #[trigger]
        frame_numbers(after, column) == reordered_column(frame_numbers(before, column), order)
}

/// Whether `after` holds the rows of `before`, each once, in some order.
pub open spec fn frame_rearranged(before: DataFrame, after: DataFrame) -> bool {
    exists|order: Seq<int>|
        is_reordering(order, frame_height(before)) && #[trigger] frame_follows(before, after, order)
}

/// Whether each row of the frame stands before the next, or equals it, by
/// the cells of the columns `first` and `second`. Nothing is said of a frame
/// in which one of the two is no column of strings.
pub open spec fn frame_ordered(frame: DataFrame, first: Seq<char>, second: Seq<char>) -> bool {
    match (frame_text(frame, first), frame_text(frame, second)) {
        (Some(a), Some(b)) => forall|i: int|
            0 <= i && i + 1 < frame_height(frame) ==> key_le(
                (#[trigger] a[i], b[i]),
                (a[i + 1], b[i + 1]),
            ),
        _ => true,
    }
}

/// Calls `DataFrame::sort_in_place` of polars with the two named columns as
/// the key, for the ascending order that puts empty cells first. Claimed:
/// the call succeeds where both key columns hold strings; after a success
/// the frame holds the same rows, rearranged as one, and where both key
/// columns hold strings each row stands before the next or equals it,
/// strings compared by their bytes; after a failure the frame is as it was.
/// Which of two rows with equal keys comes first is not claimed.
#[verifier::external_body]
pub(crate) fn sort_frame(
    frame: &mut DataFrame,
    first: &str,
    second: &str,
    descending: bool,
    nulls_last: bool,
    multithreaded: bool,
    maintain_order: bool,
) -> (r: Result<(), PolarsError>)
    requires
        !descending,
        !nulls_last,
    ensures
        match r {
            Ok(_) => frame_rearranged(*old(frame), *final(frame)) && frame_ordered(
                *final(frame),
                first@,
                second@,
            ),
            Err(_) => *final(frame) == *old(frame),
        },
        frame_text(*old(frame), first@) is Some && frame_text(*old(frame), second@) is Some
            ==> r is Ok,
{
    let options = SortMultipleOptions {
        descending: vec![descending, descending],
        nulls_last: vec![nulls_last, nulls_last],
        multithreaded,
        maintain_order,
        limit: None,
    };
    frame.sort_in_place([first, second], options).map(|_| ())
}

/// Calls `DataFrame::column` and `Column::str` of polars and copies the
/// cells out. Claimed: the call succeeds exactly where the frame has a
/// column of strings of that name, and then hands out its cells, one for
/// each row of the frame.
#[verifier::external_body]
pub(crate) fn text_cells(frame: &DataFrame, column: &str) -> (r: Result<
    Vec<Option<String>>,
    PolarsError,
>)
    ensures
        match r {
            Ok(cells) => frame_text(*frame, column@) == Some(text_view(cells@)) && cells@.len()
                == frame_height(*frame),
            Err(_) => frame_text(*frame, column@).is_none(),
        },
{
    let cells = frame.column(column)?.str()?;
    Ok(cells.iter().map(|cell| cell.map(|text| text.to_string())).collect())
}

/// Calls `DataFrame::column` and `Series::unpack` of polars for the type of
/// 64-bit floating-point numbers and copies the cells out, each as its bit
/// pattern. Claimed: the call succeeds exactly where the frame has a column
/// of such numbers of that name, and then hands out its cells, one for each
/// row of the frame.
#[verifier::external_body]
pub(crate) fn number_cells(frame: &DataFrame, column: &str) -> (r: Result<
    Vec<Option<u64>>,
    PolarsError,
>)
    ensures
        match r {
            Ok(cells) => frame_numbers(*frame, column@) == Some(cells@) && cells@.len()
                == frame_height(*frame),
            Err(_) => frame_numbers(*frame, column@).is_none(),
        },
{
    let series = frame.column(column)?.as_materialized_series();
    let cells = series.unpack::<polars::datatypes::Float64Type>()?;
    Ok(cells.iter().map(|cell| cell.map(|number| number.to_bits())).collect())
}

} // verus!
