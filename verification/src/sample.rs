use vstd::prelude::*;
use vstd::arithmetic::div_mod::lemma_fundamental_div_mod;
use crate::error::PipelineError;
use crate::number::{is_nan, MISSING};
use crate::table::{Table, Tick, TickView};

verus! {

/// The points of a chart: a label and a value for each, the value as the
/// bit pattern of a double.
#[derive(Clone, Debug, PartialEq, Eq)]
pub struct Series {
    pub labels: Vec<String>,
    pub values: Vec<u64>,
}

/// A series as the values it holds.
pub ghost struct SeriesView {
    pub labels: Seq<Seq<char>>,
    pub values: Seq<u64>,
}

impl View for Series {
    type V = SeriesView;

    open spec fn view(&self) -> SeriesView {
        SeriesView {
            labels: Seq::new(self.labels@.len(), |i: int| self.labels@[i]@),
            values: self.values@,
        }
    }
}

impl Series {
    /// Whether the series has a value for each label.
    pub open spec fn wf(&self) -> bool {
        self.labels@.len() == self.values@.len()
    }

    /// The number of points.
    pub fn len(&self) -> (n: usize)
        ensures
            n == self@.labels.len(),
    {
        self.labels.len()
    }
}

/// The character between the day and the time of a label.
pub open spec fn separator() -> Seq<char> {
    seq!['_']
}

/// The characters of a cell, none for an empty cell.
pub open spec fn text_or_empty(cell: Option<Seq<char>>) -> Seq<char> {
    match cell {
        Some(text) => text,
        None => Seq::empty(),
    }
}

/// The label of a tick: its day, an underscore and its time.
pub open spec fn label_of(tick: TickView) -> Seq<char> {
    text_or_empty(tick.day) + separator() + text_or_empty(tick.time)
}

/// The value of a tick: its price, or the missing-price pattern.
pub open spec fn value_of(tick: TickView) -> u64 {
    match tick.price {
        Some(bits) => bits,
        None => MISSING,
    }
}

/// The number of rows that a walk over `rows` rows visits when it starts at
/// the first and goes `step` rows on each time: the quotient of the two,
/// rounded up.
pub open spec fn sample_count(rows: nat, step: nat) -> nat
    recommends
        step > 0,
{
    ((rows + step - 1) / (step as int)) as nat
}

/// The points that sampling takes from `rows`: one for each of the rows
/// `0`, `step`, `2 * step`, and so on.
pub open spec fn sampled(rows: Seq<TickView>, step: nat) -> SeriesView
    recommends
        step > 0,
{
    SeriesView {
        labels: Seq::new(sample_count(rows.len(), step), |k: int| label_of(rows[k * step])),
        values: Seq::new(sample_count(rows.len(), step), |k: int| value_of(rows[k * step])),
    }
}

/// Builds the label of a tick.
pub fn make_label(tick: &Tick) -> (label: String)
    ensures
        label@ == label_of(tick@),
{
    let mut label = match &tick.day {
        Some(day) => day.clone(),
        None => String::new(),
    };
    proof {
        reveal_strlit("_");
        assert("_"@ =~= separator());
    }
    label.append("_");
    match &tick.time {
        Some(time) => {
            label.append(time.as_str());
        },
        None => {
            assert(label@ + Seq::<char>::empty() =~= label@);
        },
    }
    label
}

/// The value of a tick: its price, or the missing-price pattern where the
/// tick has none.
pub fn make_value(tick: &Tick) -> (value: u64)
    ensures
        value == value_of(tick@),
{
    match tick.price {
        Some(bits) => bits,
        None => MISSING,
    }
}

/// The walk visits no row of an empty table, and every row when it goes on
/// by one.
pub proof fn sample_count_edges(rows: nat)
    ensures
        sample_count(0, 1) == 0,
        sample_count(rows, 1) == rows,
{
}

/// The row `k * step` lies in the table exactly for the `k` below the
/// sample count.
pub proof fn sample_count_bounds(rows: nat, step: nat, k: nat)
    requires
        step > 0,
    ensures
        k < sample_count(rows, step) <==> k * step < rows,
{
    let count = (rows + step - 1) / (step as int);
    lemma_fundamental_div_mod(rows + step - 1, step as int);
    assert(0 <= (rows + step - 1) % (step as int) < step) by (nonlinear_arith)
        requires
            step > 0,
            rows + step - 1 >= 0,
    ;
    assert(count >= 0) by (nonlinear_arith)
        requires
            step > 0,
            rows + step - 1 >= 0,
            count == (rows + step - 1) / (step as int),
    ;
    if k < count {
        assert(k * step <= (count - 1) * step) by (nonlinear_arith)
            requires
                k <= count - 1,
                step > 0,
        ;
        assert((count - 1) * step == count * step - step) by (nonlinear_arith);
        assert(step * count == count * step) by (nonlinear_arith);
    } else {
        assert(k * step >= count * step) by (nonlinear_arith)
            requires
                k >= count,
                step > 0,
        ;
        assert(step * count == count * step) by (nonlinear_arith);
    }
}

/// A sampled row without a price gives a value that is not a number.
pub proof fn missing_price_is_sampled_as_not_a_number(rows: Seq<TickView>, step: nat, k: int)
    requires
        step > 0,
        0 <= k < sample_count(rows.len(), step),
        rows[k * step].price is None,
    ensures
        is_nan(sampled(rows, step).values[k]),
        0 <= k * step < rows.len(),
{
    sample_count_bounds(rows.len(), step, k as nat);
    assert(0 <= k * step) by (nonlinear_arith)
        requires
            0 <= k,
            step > 0,
    ;
}

/// Takes every `step`-th row of the table, from the first on, as a point:
/// its label and its value. A step of zero is a `Validation` failure;
/// nothing else fails, and a table without rows gives no points.
pub fn sample(table: &Table, step: usize) -> (r: Result<Series, PipelineError>)
    ensures
        match r {
            Ok(series) => {
                &&& step > 0
                &&& series.wf()
                &&& series@ == sampled(table@, step as nat)
                &&& series@.values.len() == sample_count(table@.len(), step as nat)
            },
            Err(e) => e == PipelineError::Validation && step == 0,
        },
{
    if step == 0 {
        return Err(PipelineError::Validation);
    }
    let n: usize = table.rows.len();
    let mut labels: Vec<String> = Vec::new();
    let mut values: Vec<u64> = Vec::new();
    let mut i: usize = 0;
    let mut done: bool = n == 0;
    while !done
        invariant
            step > 0,
            n == table.rows@.len(),
            n == table@.len(),
            labels@.len() == values@.len(),
            !done ==> i == labels@.len() * step && i < n,
            done ==> (labels@.len() * step >= n && (labels@.len() == 0 || (labels@.len() - 1)
                * step < n)),
            forall|k: int|
                0 <= k < labels@.len() ==> (#[trigger] labels@[k])@ == label_of(
                    table@[k * step],
                ),
            forall|k: int|
                0 <= k < values@.len() ==> #[trigger] values@[k] == value_of(table@[k * step]),
        decreases n - i, if done { 0int } else { 1int },
    {
        let tick = &table.rows[i];
        let ghost count = labels@.len();
        labels.push(make_label(tick));
        values.push(make_value(tick));
        proof {
            assert((count + 1) * step == count * step + step) by (nonlinear_arith);
            assert(table@[count * step] == tick@);
        }
        if n - i <= step {
            done = true;
            proof {
                assert(((count + 1) - 1) * step == i) by (nonlinear_arith)
                    requires
                        i == count * step,
                ;
            }
        } else {
            i = i + step;
        }
    }
    let series = Series { labels, values };
    proof {
        let count = series.labels@.len();
        assert(count == sample_count(table@.len(), step as nat)) by {
            sample_count_bounds(n as nat, step as nat, count as nat);
            if count > 0 {
                sample_count_bounds(n as nat, step as nat, (count - 1) as nat);
            }
        }
        assert(series@.labels =~= sampled(table@, step as nat).labels);
        assert(series@.values =~= sampled(table@, step as nat).values);
    }
    Ok(series)
}

} // verus!
