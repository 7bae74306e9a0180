use vstd::prelude::*;

verus! {

/// Whether the first string stands before the second, or equals it, when the
/// two are compared character by character, by code point, a proper prefix
/// standing before what it is a prefix of. The bytes of their UTF-8 encodings
/// compare alike.
pub open spec fn text_le(left: Seq<char>, right: Seq<char>) -> bool
    decreases left.len(),
{
    if left.len() == 0 {
        true
    } else if right.len() == 0 {
        false
    } else if left[0] != right[0] {
        (left[0] as int) < (right[0] as int)
    } else {
        text_le(left.drop_first(), right.drop_first())
    }
}

/// Whether the first cell stands before the second, or equals it: an empty
/// cell stands before every string, and strings stand in the order of
/// `text_le`.
pub open spec fn cell_le(left: Option<Seq<char>>, right: Option<Seq<char>>) -> bool {
    match (left, right) {
        (None, _) => true,
        (Some(_), None) => false,
        (Some(a), Some(b)) => text_le(a, b),
    }
}

/// Whether the pair of cells `first` stands before the pair `second`, or
/// equals it: the pairs are ordered by their first cells, and by their
/// second cells where the first are equal.
pub open spec fn key_le(
    first: (Option<Seq<char>>, Option<Seq<char>>),
    second: (Option<Seq<char>>, Option<Seq<char>>),
) -> bool {
    if first.0 == second.0 {
        cell_le(first.1, second.1)
    } else {
        cell_le(first.0, second.0)
    }
}

/// Whether `order` lists each of the positions `0 .. n` once.
pub open spec fn is_reordering(order: Seq<int>, n: nat) -> bool {
    &&& order.len() == n
    &&& forall|i: int| 0 <= i < n ==> 0 <= #[trigger] order[i] < n
    &&& forall|i: int, j: int| 0 <= i < j < n ==> #[trigger] order[i] != #[trigger] order[j]
}

/// The cells of `cells` taken in the order that `order` lists their
/// positions.
pub open spec fn reordered<A>(cells: Seq<A>, order: Seq<int>) -> Seq<A> {
    Seq::new(order.len(), |i: int| cells[order[i]])
}

/// `reordered`, for a column that may be absent.
pub open spec fn reordered_column<A>(column: Option<Seq<A>>, order: Seq<int>) -> Option<Seq<A>> {
    match column {
        Some(cells) => Some(reordered(cells, order)),
        None => None,
    }
}

/// Cells taken in an order that lists each position once are the same
/// cells, each as often as before.
pub proof fn reordering_keeps_every_cell<A>(cells: Seq<A>, order: Seq<int>)
    requires
        is_reordering(order, cells.len()),
    ensures
        reordered(cells, order).len() == cells.len(),
        reordered(cells, order).to_multiset() == cells.to_multiset(),
    decreases order.len(),
{
    broadcast use {vstd::seq_lib::to_multiset_build, vstd::seq_lib::to_multiset_remove};

    let n = order.len() as int;
    let after = reordered(cells, order);
    if n == 0 {
        assert(after =~= cells);
    } else {
        let k = order[n - 1];
        let rest = cells.remove(k);
        let shifted = Seq::new(
            (n - 1) as nat,
            |i: int|
                if order[i] > k {
                    order[i] - 1
                } else {
                    order[i]
                },
        );
        assert forall|i: int| 0 <= i < n - 1 implies 0 <= #[trigger] shifted[i] < n - 1 by {
            assert(order[i] != order[n - 1]);
        }
        assert forall|i: int, j: int| 0 <= i < j < n - 1 implies #[trigger] shifted[i]
            != #[trigger] shifted[j] by {
            assert(order[i] != order[j]);
            assert(order[i] != order[n - 1]);
            assert(order[j] != order[n - 1]);
        }
        assert(is_reordering(shifted, rest.len()));
        assert(reordered(rest, shifted) =~= after.drop_last()) by {
            assert forall|i: int| 0 <= i < n - 1 implies reordered(rest, shifted)[i]
                == after.drop_last()[i] by {
                assert(order[i] != order[n - 1]);
            }
        }
        reordering_keeps_every_cell(rest, shifted);
        assert(after =~= after.drop_last().push(cells[k]));
        assert(after.to_multiset() =~= after.drop_last().to_multiset().insert(cells[k]));
        assert(rest.to_multiset() =~= cells.to_multiset().remove(cells[k]));
        assert(cells.to_multiset().count(cells[k]) > 0) by {
            cells.to_multiset_ensures();
            assert(cells.contains(cells[k]));
        }
        assert(after.to_multiset() =~= cells.to_multiset());
    }
}

/// `text_le` holds of every string and itself.
pub proof fn text_le_reflexive(text: Seq<char>)
    ensures
        text_le(text, text),
    decreases text.len(),
{
    if text.len() > 0 {
        text_le_reflexive(text.drop_first());
    }
}

/// Of two strings, one stands before the other or equals it.
pub proof fn text_le_total(left: Seq<char>, right: Seq<char>)
    ensures
        text_le(left, right) || text_le(right, left),
    decreases left.len(),
{
    if left.len() > 0 && right.len() > 0 && left[0] == right[0] {
        text_le_total(left.drop_first(), right.drop_first());
    }
}

/// Two strings that each stand before or equal the other are equal.
pub proof fn text_le_antisymmetric(left: Seq<char>, right: Seq<char>)
    requires
        text_le(left, right),
        text_le(right, left),
    ensures
        left == right,
    decreases left.len(),
{
    if left.len() > 0 && right.len() > 0 {
        if left[0] == right[0] {
            text_le_antisymmetric(left.drop_first(), right.drop_first());
            assert(left =~= seq![left[0]] + left.drop_first());
            assert(right =~= seq![right[0]] + right.drop_first());
        }
    } else {
        assert(left =~= right);
    }
}

/// `text_le` carries over from a first string to a third through a second.
pub proof fn text_le_transitive(first: Seq<char>, second: Seq<char>, third: Seq<char>)
    requires
        text_le(first, second),
        text_le(second, third),
    ensures
        text_le(first, third),
    decreases first.len(),
{
    if first.len() > 0 {
        if first[0] == second[0] && second[0] == third[0] {
            text_le_transitive(first.drop_first(), second.drop_first(), third.drop_first());
        }
    }
}

/// Of two keys, one stands before the other or equals it.
pub proof fn key_le_total(
    first: (Option<Seq<char>>, Option<Seq<char>>),
    second: (Option<Seq<char>>, Option<Seq<char>>),
)
    ensures
        key_le(first, second) || key_le(second, first),
{
    if let (Some(a), Some(b)) = (first.0, second.0) {
        text_le_total(a, b);
    }
    if let (Some(a), Some(b)) = (first.1, second.1) {
        text_le_total(a, b);
    }
}

/// Two keys that each stand before or equal the other are equal.
pub proof fn key_le_antisymmetric(
    first: (Option<Seq<char>>, Option<Seq<char>>),
    second: (Option<Seq<char>>, Option<Seq<char>>),
)
    requires
        key_le(first, second),
        key_le(second, first),
    ensures
        first == second,
{
    if let (Some(a), Some(b)) = (first.0, second.0) {
        if a != b {
            text_le_antisymmetric(a, b);
        }
    }
    if let (Some(a), Some(b)) = (first.1, second.1) {
        if first.0 == second.0 {
            text_le_antisymmetric(a, b);
        }
    }
}

/// `key_le` carries over from a first key to a third through a second.
pub proof fn key_le_transitive(
    first: (Option<Seq<char>>, Option<Seq<char>>),
    second: (Option<Seq<char>>, Option<Seq<char>>),
    third: (Option<Seq<char>>, Option<Seq<char>>),
)
    requires
        key_le(first, second),
        key_le(second, third),
    ensures
        key_le(first, third),
{
    if let (Some(a), Some(b), Some(c)) = (first.0, second.0, third.0) {
        text_le_reflexive(a);
        text_le_reflexive(b);
        text_le_transitive(a, b, c);
        if a == c && a != b {
            text_le_antisymmetric(a, b);
        }
    }
    if let (Some(a), Some(b), Some(c)) = (first.1, second.1, third.1) {
        if first.0 == second.0 && second.0 == third.0 {
            text_le_transitive(a, b, c);
        }
    }
}

} // verus!
