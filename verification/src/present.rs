use vstd::prelude::*;
use crate::error::PipelineError;
use crate::number::{
    below, finite, is_finite, rank, step_above, step_above_of, step_below, step_below_of, HIGHEST,
    LOWEST, ONE, ZERO,
};
use crate::sample::{Series, SeriesView};

verus! {

/// Narrowest chart, in pixels.
pub const MIN_WIDTH: u32 = 1000;

/// Widest chart, in pixels.
pub const MAX_WIDTH: u32 = 4000;

/// Pixels that each point adds to the narrowest chart.
pub const POINT_WIDTH: u32 = 10;

/// Height of every chart, in pixels.
pub const HEIGHT: u32 = 600;

/// The width of a chart of `points` points: ten pixels for each on top of
/// the narrowest width, and never more than the widest.
pub open spec fn width_of(points: nat) -> nat {
    if MIN_WIDTH + points * POINT_WIDTH > MAX_WIDTH {
        MAX_WIDTH as nat
    } else {
        (MIN_WIDTH + points * POINT_WIDTH) as nat
    }
}

/// Computes the width of a chart of `points` points.
pub fn chart_width(points: usize) -> (width: u32)
    ensures
        width == width_of(points as nat),
        MIN_WIDTH <= width <= MAX_WIDTH,
{
    let room: u32 = (MAX_WIDTH - MIN_WIDTH) / POINT_WIDTH;
    if points >= room as usize {
        MAX_WIDTH
    } else {
        let n: u32 = points as u32;
        MIN_WIDTH + n * POINT_WIDTH
    }
}

/// Whether some value is finite.
pub open spec fn has_finite(values: Seq<u64>) -> bool {
    exists|i: int| 0 <= i < values.len() && is_finite(#[trigger] values[i])
}

/// Whether the value at `at` is finite, no finite value is lower, and every
/// finite value before it is higher: the first of the lowest.
pub open spec fn is_lowest_at(values: Seq<u64>, at: int) -> bool {
    &&& 0 <= at < values.len()
    &&& is_finite(values[at])
    &&& forall|k: int|
        0 <= k < values.len() && is_finite(#[trigger] values[k]) ==> rank(values[at]) <= rank(
            values[k],
        )
    &&& forall|k: int|
        0 <= k < at && is_finite(#[trigger] values[k]) ==> rank(values[at]) < rank(values[k])
}

/// Whether the value at `at` is finite, no finite value is higher, and every
/// finite value before it is lower: the first of the highest.
pub open spec fn is_highest_at(values: Seq<u64>, at: int) -> bool {
    &&& 0 <= at < values.len()
    &&& is_finite(values[at])
    &&& forall|k: int|
        0 <= k < values.len() && is_finite(#[trigger] values[k]) ==> rank(values[k]) <= rank(
            values[at],
        )
    &&& forall|k: int|
        0 <= k < at && is_finite(#[trigger] values[k]) ==> rank(values[k]) < rank(values[at])
}

/// The lowest and the highest of the finite values, each as the pattern of
/// its first occurrence; `None` where no value is finite.
pub open spec fn range_of(values: Seq<u64>) -> Option<(u64, u64)> {
    if has_finite(values) {
        Some(
            (
                values[choose|at: int| is_lowest_at(values, at)],
                values[choose|at: int| is_highest_at(values, at)],
            ),
        )
    } else {
        None
    }
}

/// At most one place holds the first of the lowest, and at most one the
/// first of the highest.
pub proof fn first_extremes_are_unique(values: Seq<u64>, a: int, b: int)
    ensures
        is_lowest_at(values, a) && is_lowest_at(values, b) ==> a == b,
        is_highest_at(values, a) && is_highest_at(values, b) ==> a == b,
{
}

/// The lowest and the highest finite value of `values`, values that are
/// infinite or not a number left aside.
pub fn finite_range(values: &Vec<u64>) -> (r: Option<(u64, u64)>)
    ensures
        r == range_of(values@),
        r is Some <==> has_finite(values@),
        match r {
            Some((low, high)) => is_finite(low) && is_finite(high) && rank(low) <= rank(high),
            None => true,
        },
{
    let n: usize = values.len();
    let mut found: bool = false;
    let mut low: u64 = 0;
    let mut high: u64 = 0;
    let ghost mut low_at: int = 0;
    let ghost mut high_at: int = 0;
    let mut i: usize = 0;
    while i < n
        invariant
            i <= n,
            n == values@.len(),
            !found ==> forall|k: int| 0 <= k < i ==> !is_finite(#[trigger] values@[k]),
            found ==> is_lowest_at(values@.take(i as int), low_at) && values@[low_at] == low,
            found ==> is_highest_at(values@.take(i as int), high_at) && values@[high_at] == high,
        decreases n - i,
    {
        let value = values[i];
        let ghost before = values@.take(i as int);
        let ghost now = values@.take(i + 1);
        proof {
            assert(forall|k: int| 0 <= k < i ==> before[k] == now[k]);
            assert(now[i as int] == value);
        }
        if finite(value) {
            if !found {
                found = true;
                low = value;
                high = value;
                proof {
                    low_at = i as int;
                    high_at = i as int;
                }
            } else {
                if below(value, low) {
                    low = value;
                    proof {
                        low_at = i as int;
                    }
                }
                if below(high, value) {
                    high = value;
                    proof {
                        high_at = i as int;
                    }
                }
            }
        }
        proof {
            if found {
                assert(is_lowest_at(now, low_at));
                assert(is_highest_at(now, high_at));
            }
        }
        i = i + 1;
    }
    proof {
        assert(values@.take(n as int) =~= values@);
    }
    if found {
        proof {
            assert(is_finite(values@[low_at]));
            assert(has_finite(values@));
            let chosen_low = choose|at: int| is_lowest_at(values@, at);
            let chosen_high = choose|at: int| is_highest_at(values@, at);
            first_extremes_are_unique(values@, low_at, chosen_low);
            first_extremes_are_unique(values@, high_at, chosen_high);
        }
        Some((low, high))
    } else {
        None
    }
}

/// The range that the chart shows before any margin is added: the lowest and
/// the highest finite value, or the range from zero to one where no value is
/// finite.
pub open spec fn bounds_of(values: Seq<u64>) -> (u64, u64) {
    match range_of(values) {
        Some(range) => range,
        None => (ZERO, ONE),
    }
}

/// Computes the range that the chart shows before any margin is added.
pub fn value_bounds(values: &Vec<u64>) -> (bounds: (u64, u64))
    ensures
        bounds == bounds_of(values@),
        is_finite(bounds.0),
        is_finite(bounds.1),
        rank(bounds.0) <= rank(bounds.1),
{
    match finite_range(values) {
        Some(range) => range,
        None => (ZERO, ONE),
    }
}

/// What a renderer needs beside the points. `low` and `high` are the
/// lowest and the highest finite value, as two bit patterns: the range of
/// the value axis before any margin is added, so for a series of one value
/// the two are equal; `widen_bounds` makes of them the range that is drawn. `last` is the highest
/// position on the point axis; `width` and `height` are the size of the
/// picture in pixels.
#[derive(Clone, Copy, Debug, PartialEq, Eq, Structural)]
pub struct Layout {
    pub low: u64,
    pub high: u64,
    pub last: usize,
    pub width: u32,
    pub height: u32,
}

/// Whether the series can be drawn: it has a point, and a value for each
/// label.
pub open spec fn is_drawable(series: SeriesView) -> bool {
    series.labels.len() > 0 && series.labels.len() == series.values.len()
}

/// The layout of a chart of the given points; `None` where the series
/// cannot be drawn.
pub open spec fn layout_of(series: SeriesView) -> Option<Layout> {
    if is_drawable(series) {
        Some(
            Layout {
                low: bounds_of(series.values).0,
                high: bounds_of(series.values).1,
                last: (series.labels.len() - 1) as usize,
                width: width_of(series.labels.len()) as u32,
                height: HEIGHT,
            },
        )
    } else {
        None
    }
}

/// Computes the layout of a chart from its points, and from nothing else.
/// A series without points, or with another number of values than of
/// labels, is a `Validation` failure.
pub fn plan_chart(series: &Series) -> (r: Result<Layout, PipelineError>)
    ensures
        match r {
            Ok(layout) => {
                &&& layout_of(series@) == Some(layout)
                &&& is_finite(layout.low)
                &&& is_finite(layout.high)
                &&& rank(layout.low) <= rank(layout.high)
                &&& MIN_WIDTH <= layout.width <= MAX_WIDTH
            },
            Err(e) => e == PipelineError::Validation && layout_of(series@).is_none(),
        },
{
    let points: usize = series.labels.len();
    if points == 0 || points != series.values.len() {
        return Err(PipelineError::Validation);
    }
    let bounds = value_bounds(&series.values);
    Ok(
        Layout {
            low: bounds.0,
            high: bounds.1,
            last: points - 1,
            width: chart_width(points),
            height: HEIGHT,
        },
    )
}

/// Two series that hold the same points have the same layout, or are both
/// refused.
pub proof fn layout_depends_on_points_only(first: Series, second: Series)
    requires
        first@ == second@,
    ensures
        layout_of(first@) == layout_of(second@),
{
}

/// Where all values are one finite value, the range before any margin has
/// that value at both ends.
pub proof fn constant_series_has_flat_bounds(values: Seq<u64>, value: u64)
    requires
        values.len() > 0,
        is_finite(value),
        forall|i: int| 0 <= i < values.len() ==> values[i] == value,
    ensures
        bounds_of(values) == (value, value),
{
    assert(is_finite(values[0]));
    assert(is_lowest_at(values, 0));
    assert(is_highest_at(values, 0));
}

/// The lower end of the range that is drawn: the proposed one, where it is
/// finite and lower than `low`; else the pattern one place below `low`.
pub open spec fn lower_end_of(low: u64, proposed: u64) -> u64 {
    if is_finite(proposed) && rank(proposed) < rank(low) {
        proposed
    } else {
        step_below_of(low)
    }
}

/// The upper end of the range that is drawn: the proposed one, where it is
/// finite and higher than `high`; else the pattern one place above `high`.
pub open spec fn upper_end_of(high: u64, proposed: u64) -> u64 {
    if is_finite(proposed) && rank(high) < rank(proposed) {
        proposed
    } else {
        step_above_of(high)
    }
}

/// Whether `low` and `high` are the ends of a range: two finite patterns,
/// the first not above the second.
pub open spec fn is_range(low: u64, high: u64) -> bool {
    is_finite(low) && is_finite(high) && rank(low) <= rank(high)
}

/// Widens the range from `low` to `high` to the range that is drawn. The
/// caller proposes the two ends, the range with its margin as rounded
/// arithmetic gave it. A proposed end is taken where it is finite and lies
/// outside the range; where rounding has lost the margin, the end is moved
/// by one representable place instead, so that the range that is drawn
/// always has a width, also for a series of one value. Patterns that are no
/// range are a `Validation` failure.
pub fn widen_bounds(low: u64, high: u64, proposed_low: u64, proposed_high: u64) -> (r: Result<
    (u64, u64),
    PipelineError,
>)
    ensures
        match r {
            Ok(wide) => {
                &&& is_range(low, high)
                &&& wide.0 == lower_end_of(low, proposed_low)
                &&& wide.1 == upper_end_of(high, proposed_high)
                &&& is_finite(wide.0)
                &&& is_finite(wide.1)
                &&& rank(wide.0) <= rank(low)
                &&& rank(high) <= rank(wide.1)
                &&& rank(wide.0) < rank(wide.1)
                &&& low != LOWEST ==> rank(wide.0) < rank(low)
                &&& high != HIGHEST ==> rank(high) < rank(wide.1)
            },
            Err(e) => e == PipelineError::Validation && !is_range(low, high),
        },
{
    if !finite(low) || !finite(high) || below(high, low) {
        return Err(PipelineError::Validation);
    }
    let lower = if finite(proposed_low) && below(proposed_low, low) {
        proposed_low
    } else {
        step_below(low)
    };
    let upper = if finite(proposed_high) && below(high, proposed_high) {
        proposed_high
    } else {
        step_above(high)
    };
    Ok((lower, upper))
}

/// A series in which every value is one finite value, neither the lowest
/// nor the highest of all, is drawn on a range that has that value strictly
/// inside, whatever ends are proposed.
pub proof fn constant_series_is_drawn_with_width(
    values: Seq<u64>,
    value: u64,
    proposed_low: u64,
    proposed_high: u64,
)
    requires
        values.len() > 0,
        is_finite(value),
        value != LOWEST,
        value != HIGHEST,
        forall|i: int| 0 <= i < values.len() ==> values[i] == value,
    ensures
        bounds_of(values) == (value, value),
        rank(lower_end_of(value, proposed_low)) < rank(value),
        rank(value) < rank(upper_end_of(value, proposed_high)),
        is_finite(lower_end_of(value, proposed_low)),
        is_finite(upper_end_of(value, proposed_high)),
{
    constant_series_has_flat_bounds(values, value);
}

/// The ways in which a chart is shown.
#[derive(Clone, Copy, Debug, PartialEq, Eq, Structural)]
pub enum Backend {
    /// A vector image written to a file.
    VectorFile,
    /// An interactive plot opened in a browser; no file is written.
    Browser,
    /// A raster image written to a file.
    RasterFile,
}

/// The file that a backend writes for the input named `stem`, inside
/// `directory`; `None` for the backend that writes none.
pub open spec fn path_of(directory: Seq<char>, stem: Seq<char>, backend: Backend) -> Option<
    Seq<char>,
> {
    match backend {
        Backend::VectorFile => Some(directory + seq!['/'] + stem + seq!['.', 's', 'v', 'g']),
        Backend::Browser => None,
        Backend::RasterFile => Some(directory + seq!['/'] + stem + seq!['.', 'p', 'n', 'g']),
    }
}

/// Builds the path of the file that a backend writes.
pub fn chart_path(directory: &str, stem: &str, backend: Backend) -> (path: Option<String>)
    ensures
        match path {
            Some(text) => path_of(directory@, stem@, backend) == Some(text@),
            None => path_of(directory@, stem@, backend).is_none(),
        },
{
    proof {
        reveal_strlit("/");
        reveal_strlit(".svg");
        reveal_strlit(".png");
        assert("/"@ =~= seq!['/']);
        assert(".svg"@ =~= seq!['.', 's', 'v', 'g']);
        assert(".png"@ =~= seq!['.', 'p', 'n', 'g']);
    }
    let ending = match backend {
        Backend::VectorFile => ".svg",
        Backend::Browser => { return None; },
        Backend::RasterFile => ".png",
    };
    let mut path = directory.to_owned();
    path.append("/");
    path.append(stem);
    path.append(ending);
    Some(path)
}

} // verus!
