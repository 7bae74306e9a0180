use vstd::prelude::*;
use polars::error::PolarsError;
use polars::frame::DataFrame;
use crate::error::PipelineError;
use crate::format::{extension_view, FileFormat};
use crate::frame::{
    frame_follows, frame_height, frame_numbers, frame_ordered, frame_rearranged, frame_text,
    sort_frame,
};
use crate::order::{is_reordering, key_le, reordered};
use crate::table::{
    frame_ticks, has_tick_columns, is_rearrangement, is_sorted, rearrangement_keeps_every_row,
    Table, DAY_COLUMN, PRICE_COLUMN, TIME_COLUMN,
};

verus! {

/// What becomes of a reader's answer to the bytes of a file: the frame that
/// it made, as it is, or an `Io` failure for its refusal.
pub open spec fn read_result(answer: Result<DataFrame, PolarsError>) -> Result<
    DataFrame,
    PipelineError,
> {
    match answer {
        Ok(frame) => Ok(frame),
        Err(_) => Err(PipelineError::Io),
    }
}

/// Turns a reader's answer into the frame or the failure of the pipeline.
pub fn read_outcome(answer: Result<DataFrame, PolarsError>) -> (r: Result<
    DataFrame,
    PipelineError,
>)
    ensures
        r == read_result(answer),
{
    match answer {
        Ok(frame) => Ok(frame),
        Err(_) => Err(PipelineError::Io),
    }
}

/// What reading a file comes to, by the extension of its name, given
/// without its dot, and by the answer that the reader of its format gave to
/// its bytes. An extension that names no format, or none at all, is an
/// `UnsupportedFormat` failure, whatever the answer is. Otherwise the
/// result is the whole frame that the reader made, or an `Io` failure for
/// its refusal.
///
/// The readers are called by the caller, who knows from
/// `FileFormat::from_extension` which one to call: they do not return on
/// every byte string, so the call needs a guard that this library cannot
/// hold.
pub fn read_from_file(extension: Option<&str>, answer: Result<DataFrame, PolarsError>) -> (r:
    Result<DataFrame, PipelineError>)
    ensures
        r == (match FileFormat::of_extension(extension_view(extension)) {
            Some(_) => read_result(answer),
            None => Err(PipelineError::UnsupportedFormat),
        }),
{
    match FileFormat::from_extension(extension) {
        Ok(_) => read_outcome(answer),
        Err(e) => Err(e),
    }
}

/// A frame with the columns of a tick keeps them when its rows are
/// rearranged, and its ticks are then rearranged in the same way.
pub proof fn rearranged_frame_rearranges_ticks(before: DataFrame, after: DataFrame)
    requires
        frame_rearranged(before, after),
    ensures
        has_tick_columns(after) == has_tick_columns(before),
        has_tick_columns(before) ==> is_rearrangement(frame_ticks(before), frame_ticks(after)),
        frame_height(after) == frame_height(before),
{
    let order = choose|order: Seq<int>|
        is_reordering(order, frame_height(before)) && #[trigger] frame_follows(
            before,
            after,
            order,
        );
    assert(frame_text(after, DAY_COLUMN@).is_some() == frame_text(before, DAY_COLUMN@).is_some());
    assert(frame_text(after, TIME_COLUMN@).is_some() == frame_text(before, TIME_COLUMN@).is_some());
    assert(frame_numbers(after, PRICE_COLUMN@).is_some() == frame_numbers(
        before,
        PRICE_COLUMN@,
    ).is_some());
    if has_tick_columns(before) {
        assert(frame_ticks(after) =~= reordered(frame_ticks(before), order));
    }
}

/// In a frame that is ordered by the day and time columns, each tick stands
/// before the next or equals it.
pub proof fn ordered_frame_has_sorted_ticks(frame: DataFrame)
    requires
        has_tick_columns(frame),
        frame_ordered(frame, DAY_COLUMN@, TIME_COLUMN@),
    ensures
        is_sorted(frame_ticks(frame)),
{
    let days = frame_text(frame, DAY_COLUMN@)->0;
    let rows = frame_ticks(frame);
    assert forall|i: int| 0 <= i && i + 1 < rows.len() implies key_le(
        #[trigger] rows[i].key(),
        rows[i + 1].key(),
    ) by {
        let _ = days[i];
    }
}

/// Sorts the rows of a frame by day and then by time, ascending, rows with
/// an empty cell first. The order of rows with equal keys is left open. A
/// frame that cannot be sorted by these columns is a `Schema` failure and is
/// left as it was; a frame whose day and time columns hold strings can
/// always be sorted.
pub fn sort_by_time(frame: &mut DataFrame) -> (r: Result<(), PipelineError>)
    ensures
        match r {
            Ok(_) => {
                &&& frame_rearranged(*old(frame), *final(frame))
                &&& frame_ordered(*final(frame), DAY_COLUMN@, TIME_COLUMN@)
                &&& frame_height(*final(frame)) == frame_height(*old(frame))
                &&& has_tick_columns(*final(frame)) == has_tick_columns(*old(frame))
                &&& has_tick_columns(*old(frame)) ==> {
                    &&& is_rearrangement(frame_ticks(*old(frame)), frame_ticks(*final(frame)))
                    &&& is_sorted(frame_ticks(*final(frame)))
                }
            },
            Err(e) => e == PipelineError::Schema && *final(frame) == *old(frame),
        },
        frame_text(*old(frame), DAY_COLUMN@) is Some && frame_text(*old(frame), TIME_COLUMN@)
            is Some ==> r is Ok,
{
    let ghost before = *frame;
    match sort_frame(frame, DAY_COLUMN, TIME_COLUMN, false, false, true, false) {
        Ok(_) => {
            proof {
                rearranged_frame_rearranges_ticks(before, *frame);
                if has_tick_columns(*frame) {
                    ordered_frame_has_sorted_ticks(*frame);
                }
            }
            Ok(())
        },
        Err(_) => Err(PipelineError::Schema),
    }
}

/// Sorts a frame and copies its ticks out. The table holds the ticks of the
/// frame, each once, every row before the next or equal to it. The one
/// failure is `Schema`, exactly for a frame that lacks a column of a tick or
/// holds one with another type.
pub fn prepare(frame: DataFrame) -> (r: Result<Table, PipelineError>)
    ensures
        match r {
            Ok(table) => {
                &&& has_tick_columns(frame)
                &&& is_rearrangement(frame_ticks(frame), table@)
                &&& table@.to_multiset() == frame_ticks(frame).to_multiset()
                &&& table@.len() == frame_height(frame)
                &&& is_sorted(table@)
            },
            Err(e) => e == PipelineError::Schema && !has_tick_columns(frame),
        },
{
    let mut sorted = frame;
    match sort_by_time(&mut sorted) {
        Ok(_) => {
            proof {
                if has_tick_columns(frame) {
                    rearrangement_keeps_every_row(frame_ticks(frame), frame_ticks(sorted));
                }
            }
            Table::from_frame(&sorted)
        },
        Err(e) => Err(e),
    }
}

/// Whether `r` is what sorting `frame` and copying its ticks out comes to:
/// a table that holds the ticks of the frame, each once, every row before
/// the next or equal to it; or a `Schema` failure, exactly for a frame that
/// lacks a column of a tick or holds one with another type.
pub open spec fn table_fits(frame: DataFrame, r: Result<Table, PipelineError>) -> bool {
    match r {
        Ok(table) => {
            &&& has_tick_columns(frame)
            &&& is_rearrangement(frame_ticks(frame), table@)
            &&& is_sorted(table@)
        },
        Err(e) => e == PipelineError::Schema && !has_tick_columns(frame),
    }
}

/// Whether `r` is what loading a file comes to, by the extension of its
/// name and the reader's answer to its bytes:
/// - `UnsupportedFormat`, exactly for an extension that names no format;
/// - else `Io`, exactly for a refusal of the reader;
/// - else `Schema`, exactly for a frame without the columns of a tick;
/// - else a table that holds the ticks of the frame, each once, every row
///   before the next or equal to it.
pub open spec fn load_fits(
    extension: Option<Seq<char>>,
    answer: Result<DataFrame, PolarsError>,
    r: Result<Table, PipelineError>,
) -> bool {
    if FileFormat::of_extension(extension) is None {
        r matches Err(e) && e == PipelineError::UnsupportedFormat
    } else {
        match answer {
            Ok(frame) => table_fits(frame, r),
            Err(_) => r matches Err(e) && e == PipelineError::Io,
        }
    }
}

/// Loads a file from the extension of its name and the reader's answer to
/// its bytes: judges the extension, takes the frame, sorts its rows and
/// copies its ticks out.
pub fn load(extension: Option<&str>, answer: Result<DataFrame, PolarsError>) -> (r: Result<
    Table,
    PipelineError,
>)
    ensures
        load_fits(extension_view(extension), answer, r),
        r matches Ok(table) ==> is_sorted(table@),
{
    match read_from_file(extension, answer) {
        Ok(frame) => prepare(frame),
        Err(e) => Err(e),
    }
}

} // verus!
