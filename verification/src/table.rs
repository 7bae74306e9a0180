use vstd::prelude::*;
use polars::frame::DataFrame;
use crate::error::PipelineError;
use crate::frame::{frame_height, frame_numbers, frame_text, number_cells, text_cells};
use crate::order::{is_reordering, key_le, reordered, reordering_keeps_every_cell};

verus! {

/// The column that holds the day of a tick.
pub const DAY_COLUMN: &'static str = "ActionDay";

/// The column that holds the time of day of a tick.
pub const TIME_COLUMN: &'static str = "UpdateTime";

/// The column that holds the price of a tick.
pub const PRICE_COLUMN: &'static str = "LastPrice";

/// One row of the table: a day, a time of day and a price, each of which may
/// be absent. The price is held as the bit pattern of a double.
#[derive(Clone, Debug, PartialEq, Eq)]
pub struct Tick {
    pub day: Option<String>,
    pub time: Option<String>,
    pub price: Option<u64>,
}

/// A row as the values it holds.
pub ghost struct TickView {
    pub day: Option<Seq<char>>,
    pub time: Option<Seq<char>>,
    pub price: Option<u64>,
}

/// An optional string as the characters it holds.
pub open spec fn cell_view(cell: Option<String>) -> Option<Seq<char>> {
    match cell {
        Some(text) => Some(text@),
        None => None,
    }
}

impl View for Tick {
    type V = TickView;

    open spec fn view(&self) -> TickView {
        TickView { day: cell_view(self.day), time: cell_view(self.time), price: self.price }
    }
}

impl TickView {
    /// The pair of cells by which rows are ordered.
    pub open spec fn key(self) -> (Option<Seq<char>>, Option<Seq<char>>) {
        (self.day, self.time)
    }
}

/// The rows of a file, in the order in which they are held.
#[derive(Clone, Debug, PartialEq, Eq)]
pub struct Table {
    pub rows: Vec<Tick>,
}

impl View for Table {
    type V = Seq<TickView>;

    open spec fn view(&self) -> Seq<TickView> {
        Seq::new(self.rows@.len(), |i: int| self.rows@[i]@)
    }
}

/// Whether each row stands before the next, or equals it, by day and then
/// by time.
pub open spec fn is_sorted(rows: Seq<TickView>) -> bool {
    forall|i: int| 0 <= i && i + 1 < rows.len() ==> key_le(#[trigger] rows[i].key(), rows[i + 1].key())
}

/// Whether `after` holds the rows of `before`, each once, in some order.
pub open spec fn is_rearrangement(before: Seq<TickView>, after: Seq<TickView>) -> bool {
    exists|order: Seq<int>| is_reordering(order, before.len()) && after == #[trigger] reordered(before, order)
}

/// A rearrangement holds as many rows as before, and each row as often.
pub proof fn rearrangement_keeps_every_row(before: Seq<TickView>, after: Seq<TickView>)
    requires
        is_rearrangement(before, after),
    ensures
        after.len() == before.len(),
        after.to_multiset() == before.to_multiset(),
{
    let order = choose|order: Seq<int>|
        is_reordering(order, before.len()) && after == #[trigger] reordered(before, order);
    reordering_keeps_every_cell(before, order);
}

/// Whether the frame has the three columns of a tick, each of its type.
pub open spec fn has_tick_columns(frame: DataFrame) -> bool {
    &&& frame_text(frame, DAY_COLUMN@) is Some
    &&& frame_text(frame, TIME_COLUMN@) is Some
    &&& frame_numbers(frame, PRICE_COLUMN@) is Some
}

/// The rows of a frame that has the three columns of a tick.
pub open spec fn frame_ticks(frame: DataFrame) -> Seq<TickView>
    recommends
        has_tick_columns(frame),
{
    Seq::new(
        frame_height(frame),
        |i: int|
            TickView {
                day: frame_text(frame, DAY_COLUMN@)->0[i],
                time: frame_text(frame, TIME_COLUMN@)->0[i],
                price: frame_numbers(frame, PRICE_COLUMN@)->0[i],
            },
    )
}

fn copy_cell(cell: &Option<String>) -> (copy: Option<String>)
    ensures
        cell_view(copy) == cell_view(*cell),
{
    match cell {
        Some(text) => Some(text.clone()),
        None => None,
    }
}

impl Table {
    /// A table without rows.
    pub fn new() -> (table: Table)
        ensures
            table@ == Seq::<TickView>::empty(),
    {
        let table = Table { rows: Vec::new() };
        assert(table@ =~= Seq::<TickView>::empty());
        table
    }

    /// The number of rows.
    pub fn len(&self) -> (n: usize)
        ensures
            n == self@.len(),
    {
        self.rows.len()
    }

    /// Adds a row behind the last.
    pub fn push(&mut self, tick: Tick)
        ensures
            final(self)@ == old(self)@.push(tick@),
    {
        self.rows.push(tick);
        assert(self@ =~= old(self)@.push(tick@));
    }

    /// Copies the three columns of a tick out of a frame, row by row. Fails
    /// exactly where the frame lacks one of them or holds it with another
    /// type.
    pub fn from_frame(frame: &DataFrame) -> (r: Result<Table, PipelineError>)
        ensures
            match r {
                Ok(table) => has_tick_columns(*frame) && table@ == frame_ticks(*frame),
                Err(e) => e == PipelineError::Schema && !has_tick_columns(*frame),
            },
    {
        let days = match text_cells(frame, DAY_COLUMN) {
            Ok(cells) => cells,
            Err(_) => { return Err(PipelineError::Schema); },
        };
        let times = match text_cells(frame, TIME_COLUMN) {
            Ok(cells) => cells,
            Err(_) => { return Err(PipelineError::Schema); },
        };
        let prices = match number_cells(frame, PRICE_COLUMN) {
            Ok(cells) => cells,
            Err(_) => { return Err(PipelineError::Schema); },
        };
        let n: usize = days.len();
        let mut rows: Vec<Tick> = Vec::with_capacity(n);
        let mut i: usize = 0;
        while i < n
            invariant
                i <= n,
                n == days@.len(),
                n == times@.len(),
                n == prices@.len(),
                rows@.len() == i,
                forall|k: int|
                    0 <= k < i ==> (#[trigger] rows@[k])@ == (TickView {
                        day: cell_view(days@[k]),
                        time: cell_view(times@[k]),
                        price: prices@[k],
                    }),
            decreases n - i,
        {
            let tick = Tick { day: copy_cell(&days[i]), time: copy_cell(&times[i]), price: prices[i] };
            rows.push(tick);
            i = i + 1;
        }
        let table = Table { rows };
        assert(table@ =~= frame_ticks(*frame));
        Ok(table)
    }
}

} // verus!
