use vstd::prelude::*;

verus! {

/// The number of times that `mark` occurs in `text`.
pub open spec fn count_of(text: Seq<char>, mark: char) -> nat
    decreases text.len(),
{
    if text.len() == 0 {
        0
    } else {
        count_of(text.drop_last(), mark) + if text.last() == mark {
            1nat
        } else {
            0nat
        }
    }
}

/// A label as it stands on the raster chart's axis: where the label holds
/// one underscore, the day above the time, a line break in place of the
/// underscore; any other label unchanged.
pub open spec fn stacked(label: Seq<char>) -> Seq<char> {
    if count_of(label, '_') == 1 {
        label.update(label.index_of('_'), '\n')
    } else {
        label
    }
}

/// Where `mark` stands in `text` once, and at `at`, it stands nowhere else.
proof fn single_mark_is_found(text: Seq<char>, mark: char, at: int)
    requires
        0 <= at < text.len(),
        text[at] == mark,
        count_of(text, mark) == 1,
    ensures
        text.index_of(mark) == at,
    decreases text.len(),
{
    let found = text.index_of(mark);
    assert(0 <= found < text.len() && text[found] == mark);
    if found != at {
        two_marks_count_two(text, mark, found, at);
    }
}

/// A mark that stands at two places is counted at least twice.
proof fn two_marks_count_two(text: Seq<char>, mark: char, a: int, b: int)
    requires
        0 <= a < text.len(),
        0 <= b < text.len(),
        a != b,
        text[a] == mark,
        text[b] == mark,
    ensures
        count_of(text, mark) >= 2,
    decreases text.len(),
{
    let rest = text.drop_last();
    let last = text.len() - 1;
    if a == last {
        one_mark_counts_one(rest, mark, b);
    } else if b == last {
        one_mark_counts_one(rest, mark, a);
    } else {
        two_marks_count_two(rest, mark, a, b);
    }
}

/// A mark that stands at some place is counted at least once.
proof fn one_mark_counts_one(text: Seq<char>, mark: char, a: int)
    requires
        0 <= a < text.len(),
        text[a] == mark,
    ensures
        count_of(text, mark) >= 1,
    decreases text.len(),
{
    if a != text.len() - 1 {
        one_mark_counts_one(text.drop_last(), mark, a);
    }
}

/// Builds the axis form of a label.
pub fn tick_label(label: &str) -> (text: String)
    ensures
        text@ == stacked(label@),
{
    let n: usize = label.unicode_len();
    let mut count: usize = 0;
    let mut at: usize = 0;
    let mut i: usize = 0;
    for mark in it: label.chars()
        invariant
            it.seq() == label@,
            n == label@.len(),
            i == it.index(),
            count == count_of(label@.take(i as int), '_'),
            count <= i,
            count > 0 ==> at < i && label@[at as int] == '_',
    {
        proof {
            assert(i < n);
            assert(label@.take(i + 1).drop_last() =~= label@.take(i as int));
        }
        if mark == '_' {
            count = count + 1;
            at = i;
        }
        i = i + 1;
    }
    proof {
        assert(label@.take(n as int) =~= label@);
    }
    if count == 1 {
        proof {
            single_mark_is_found(label@, '_', at as int);
            reveal_strlit("\n");
            assert("\n"@ =~= seq!['\n']);
        }
        let mut text = label.substring_char(0, at).to_owned();
        text.append("\n");
        text.append(label.substring_char(at + 1, n));
        proof {
            assert(text@ =~= label@.update(at as int, '\n'));
        }
        text
    } else {
        label.to_owned()
    }
}

} // verus!
