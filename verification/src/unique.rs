use vstd::prelude::*;
use vstd::relations::{sorted_by, total_ordering};
use vstd::seq_lib::lemma_sorted_unique;
use crate::order::{
    is_reordering, key_le, key_le_antisymmetric, key_le_total, key_le_transitive, reordered,
};
use polars::frame::DataFrame;
use crate::error::PipelineError;
use crate::pipeline::table_fits;
use crate::present::layout_of;
use crate::sample::sampled;
use crate::table::{
    frame_ticks, has_tick_columns, is_rearrangement, is_sorted, rearrangement_keeps_every_row,
    Table, TickView,
};

verus! {

/// Whether no two rows have the same day and time.
pub open spec fn has_distinct_keys(rows: Seq<TickView>) -> bool {
    forall|i: int, j: int| 0 <= i < j < rows.len() ==> rows[i].key() != rows[j].key()
}

/// Whether the first price stands before the second or equals it: an absent
/// price before every pattern, and patterns as whole numbers.
pub open spec fn price_le(first: Option<u64>, second: Option<u64>) -> bool {
    match (first, second) {
        (None, _) => true,
        (Some(_), None) => false,
        (Some(a), Some(b)) => a <= b,
    }
}

/// An order of all ticks: by key where the keys differ, and by price where
/// they are equal. Among rows of distinct keys it is the order of `key_le`.
pub open spec fn tick_le(first: TickView, second: TickView) -> bool {
    if first.key() != second.key() {
        key_le(first.key(), second.key())
    } else {
        price_le(first.price, second.price)
    }
}

/// In a sorted table every row stands before every later row, or equals it,
/// not only before the next.
pub proof fn sorted_rows_stand_in_order(rows: Seq<TickView>, i: int, j: int)
    requires
        is_sorted(rows),
        0 <= i <= j < rows.len(),
    ensures
        key_le(rows[i].key(), rows[j].key()),
    decreases j - i,
{
    if i == j {
        key_le_total(rows[i].key(), rows[i].key());
    } else {
        sorted_rows_stand_in_order(rows, i, j - 1);
        assert(key_le(rows[j - 1].key(), rows[j - 1 + 1].key()));
        key_le_transitive(rows[i].key(), rows[j - 1].key(), rows[j].key());
    }
}

/// `tick_le` orders all ticks in one line.
pub proof fn tick_le_is_a_total_order()
    ensures
        total_ordering(|a: TickView, b: TickView| tick_le(a, b)),
{
    let leq = |a: TickView, b: TickView| tick_le(a, b);
    assert forall|x: TickView| #[trigger] leq(x, x) by {}
    assert forall|x: TickView, y: TickView| #[trigger] leq(x, y) || #[trigger] leq(y, x) by {
        key_le_total(x.key(), y.key());
    }
    assert forall|x: TickView, y: TickView| #[trigger] leq(x, y) && #[trigger] leq(y, x) implies x
        == y by {
        if x.key() != y.key() {
            key_le_antisymmetric(x.key(), y.key());
        }
    }
    assert forall|x: TickView, y: TickView, z: TickView| #[trigger]
        leq(x, y) && #[trigger] leq(y, z) implies leq(x, z) by {
        if x.key() != y.key() && y.key() != z.key() {
            key_le_transitive(x.key(), y.key(), z.key());
            if x.key() == z.key() {
                key_le_antisymmetric(x.key(), y.key());
            }
        }
    }
}

/// Rows of distinct keys have one sorted order: two sorted rearrangements
/// of them are the same table.
pub proof fn sorted_rearrangement_is_unique(
    rows: Seq<TickView>,
    first: Seq<TickView>,
    second: Seq<TickView>,
)
    requires
        has_distinct_keys(rows),
        is_rearrangement(rows, first),
        is_rearrangement(rows, second),
        is_sorted(first),
        is_sorted(second),
    ensures
        first == second,
{
    let leq = |a: TickView, b: TickView| tick_le(a, b);
    tick_le_is_a_total_order();
    rearrangement_keeps_every_row(rows, first);
    rearrangement_keeps_every_row(rows, second);
    rearranged_rows_keep_distinct_keys(rows, first);
    rearranged_rows_keep_distinct_keys(rows, second);
    assert forall|i: int, j: int| 0 <= i < j < first.len() implies #[trigger] leq(
        first[i],
        first[j],
    ) by {
        sorted_rows_stand_in_order(first, i, j);
    }
    assert forall|i: int, j: int| 0 <= i < j < second.len() implies #[trigger] leq(
        second[i],
        second[j],
    ) by {
        sorted_rows_stand_in_order(second, i, j);
    }
    assert(sorted_by(first, leq));
    assert(sorted_by(second, leq));
    lemma_sorted_unique(first, second, leq);
}

/// A rearrangement of rows of distinct keys has distinct keys.
pub proof fn rearranged_rows_keep_distinct_keys(rows: Seq<TickView>, after: Seq<TickView>)
    requires
        has_distinct_keys(rows),
        is_rearrangement(rows, after),
    ensures
        has_distinct_keys(after),
{
    let order = choose|order: Seq<int>|
        is_reordering(order, rows.len()) && after == #[trigger] reordered(rows, order);
    assert forall|i: int, j: int| 0 <= i < j < after.len() implies after[i].key()
        != after[j].key() by {
        assert(order[i] != order[j]);
        if order[i] < order[j] {
            assert(rows[order[i]].key() != rows[order[j]].key());
        } else {
            assert(rows[order[j]].key() != rows[order[i]].key());
        }
    }
}

/// Sorting two frames that hold the same ticks comes to the same end: the
/// same failure, or, where no two rows have the same day and time, the same
/// table, and so the same points for a step and the same layout.
pub proof fn equal_ticks_give_equal_tables(
    first: DataFrame,
    second: DataFrame,
    a: Result<Table, PipelineError>,
    b: Result<Table, PipelineError>,
    step: nat,
)
    requires
        table_fits(first, a),
        table_fits(second, b),
        has_tick_columns(first) == has_tick_columns(second),
        has_tick_columns(first) ==> frame_ticks(first) == frame_ticks(second),
        has_tick_columns(first) ==> has_distinct_keys(frame_ticks(first)),
    ensures
        match (a, b) {
            (Ok(x), Ok(y)) => {
                &&& x@ == y@
                &&& sampled(x@, step) == sampled(y@, step)
                &&& layout_of(sampled(x@, step)) == layout_of(sampled(y@, step))
            },
            (Err(x), Err(y)) => x == y,
            _ => false,
        },
{
    if let (Ok(x), Ok(y)) = (a, b) {
        sorted_rearrangement_is_unique(frame_ticks(first), x@, y@);
    }
}

} // verus!
