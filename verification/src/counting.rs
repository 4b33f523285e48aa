//! Counting how often a value occurs in what `flat_map` makes.

use vstd::prelude::*;
use vstd::seq_lib::{
    lemma_multiset_commutative,
    to_multiset_build,
    to_multiset_contains,
    to_multiset_len,
    to_multiset_remove,
};
use crate::model::flat_map;

verus! {

/// How often `item` occurs in `pieces`.
pub open spec fn occurrences<B>(pieces: Seq<B>, item: B) -> nat {
    pieces.to_multiset().count(item)
}

/// How often `item` occurs in the pieces that `each` makes of the items,
/// summed item by item.
pub open spec fn tally<A, B>(items: Seq<A>, each: spec_fn(A) -> Seq<B>, item: B) -> nat
    decreases items.len(),
{
    if items.len() == 0 {
        0
    } else {
        tally(items.drop_last(), each, item) + occurrences(each(items.last()), item)
    }
}

/// Nothing occurs in an empty sequence.
pub proof fn lemma_occurrences_empty<B>(item: B)
    ensures
        occurrences(Seq::<B>::empty(), item) == 0,
{
    broadcast use {vstd::multiset::group_multiset_axioms, vstd::multiset::group_multiset_properties};

    to_multiset_len(Seq::<B>::empty());
    vstd::multiset::lemma_multiset_empty_len(Seq::<B>::empty().to_multiset());
}

/// In a sequence of one value, that value occurs once and no other does.
pub proof fn lemma_occurrences_single<B>(only: B, item: B)
    ensures
        occurrences(seq![only], item) == if only == item {
            1nat
        } else {
            0nat
        },
{
    broadcast use {vstd::multiset::group_multiset_axioms, vstd::multiset::group_multiset_properties};

    lemma_occurrences_empty(item);
    to_multiset_build(Seq::<B>::empty(), only);
    assert(Seq::<B>::empty().push(only) =~= seq![only]);
}

/// Occurrences add up over concatenation.
pub proof fn lemma_occurrences_concat<B>(first: Seq<B>, second: Seq<B>, item: B)
    ensures
        occurrences(first + second, item) == occurrences(first, item) + occurrences(second, item),
{
    broadcast use {vstd::multiset::group_multiset_axioms, vstd::multiset::group_multiset_properties};

    lemma_multiset_commutative(first, second);
}

/// Occurrences at the end of a sequence.
pub proof fn lemma_occurrences_push<B>(pieces: Seq<B>, last: B, item: B)
    ensures
        occurrences(pieces.push(last), item) == occurrences(pieces, item) + if last == item {
            1nat
        } else {
            0nat
        },
{
    broadcast use {vstd::multiset::group_multiset_axioms, vstd::multiset::group_multiset_properties};

    to_multiset_build(pieces, last);
}

/// A value occurs in a sequence as often as the pieces of the items hold it.
pub proof fn lemma_flat_map_occurrences<A, B>(items: Seq<A>, each: spec_fn(A) -> Seq<B>, item: B)
    ensures
        occurrences(flat_map(items, each), item) == tally(items, each, item),
    decreases items.len(),
{
    if items.len() == 0 {
        lemma_occurrences_empty(item);
    } else {
        lemma_flat_map_occurrences(items.drop_last(), each, item);
        lemma_occurrences_concat(flat_map(items.drop_last(), each), each(items.last()), item);
    }
}

/// Where no item's pieces hold the value, the tally is zero.
pub proof fn lemma_tally_none<A, B>(items: Seq<A>, each: spec_fn(A) -> Seq<B>, item: B)
    requires
        forall|i: int| 0 <= i < items.len() ==> occurrences(each(#[trigger] items[i]), item) == 0,
    ensures
        tally(items, each, item) == 0,
    decreases items.len(),
{
    if items.len() > 0 {
        let earlier = items.drop_last();
        assert forall|i: int| 0 <= i < earlier.len() implies occurrences(
            each(#[trigger] earlier[i]),
            item,
        ) == 0 by {
            assert(earlier[i] == items[i]);
        }
        lemma_tally_none(earlier, each, item);
        assert(items.last() == items[items.len() - 1]);
    }
}

/// Where the pieces of one place alone can hold the value, the tally is what
/// they hold.
pub proof fn lemma_tally_one_place<A, B>(
    items: Seq<A>,
    each: spec_fn(A) -> Seq<B>,
    item: B,
    at: int,
)
    requires
        0 <= at < items.len(),
        forall|i: int|
            0 <= i < items.len() && i != at ==> occurrences(each(#[trigger] items[i]), item) == 0,
    ensures
        tally(items, each, item) == occurrences(each(items[at]), item),
    decreases items.len(),
{
    let earlier = items.drop_last();
    assert forall|i: int| 0 <= i < earlier.len() && i != at implies occurrences(
        each(#[trigger] earlier[i]),
        item,
    ) == 0 by {
        assert(earlier[i] == items[i]);
    }
    if at == items.len() - 1 {
        lemma_tally_none(earlier, each, item);
    } else {
        lemma_tally_one_place(earlier, each, item, at);
        assert(earlier[at] == items[at]);
        assert(items.last() == items[items.len() - 1]);
    }
}

/// Where the pieces of one source value alone can hold the value, the tally
/// is what they hold, once for each occurrence of the source.
pub proof fn lemma_tally_one_source<A, B>(
    items: Seq<A>,
    each: spec_fn(A) -> Seq<B>,
    item: B,
    source: A,
)
    requires
        forall|other: A| other != source ==> occurrences(#[trigger] each(other), item) == 0,
    ensures
        tally(items, each, item) == occurrences(items, source) * occurrences(each(source), item),
    decreases items.len(),
{
    let held = occurrences(each(source), item);
    if items.len() == 0 {
        lemma_occurrences_empty(source);
        assert(items =~= Seq::<A>::empty());
        assert(0 * held == 0) by (nonlinear_arith);
    } else {
        let earlier = items.drop_last();
        lemma_tally_one_source(earlier, each, item, source);
        lemma_occurrences_push(earlier, items.last(), source);
        assert(items =~= earlier.push(items.last()));
        let before = occurrences(earlier, source);
        if items.last() == source {
            assert((before + 1) * held == before * held + held) by (nonlinear_arith);
        }
    }
}

/// Two sequences in which every value occurs equally often hold the same
/// multiset, and so have the same length and the same set of values.
pub proof fn lemma_same_occurrences<B>(first: Seq<B>, second: Seq<B>)
    requires
        forall|item: B| occurrences(first, item) == occurrences(second, item),
    ensures
        first.to_multiset() == second.to_multiset(),
        first.len() == second.len(),
        first.to_set() == second.to_set(),
{
    broadcast use {vstd::multiset::group_multiset_axioms, vstd::multiset::group_multiset_properties};

    assert forall|item: B| first.to_multiset().count(item) == second.to_multiset().count(
        item,
    ) by {
        assert(occurrences(first, item) == occurrences(second, item));
    }
    assert(first.to_multiset() =~= second.to_multiset());
    to_multiset_len(first);
    to_multiset_len(second);
    assert forall|item: B| first.to_set().contains(item) == second.to_set().contains(item) by {
        to_multiset_contains(first, item);
        to_multiset_contains(second, item);
    }
    assert(first.to_set() =~= second.to_set());
}

/// A sequence in which two different values occur, or one value twice, has
/// two elements at least.
pub proof fn lemma_two_occurrences<B>(pieces: Seq<B>, first: B, second: B)
    requires
        if first == second {
            occurrences(pieces, first) >= 2
        } else {
            occurrences(pieces, first) >= 1 && occurrences(pieces, second) >= 1
        },
    ensures
        pieces.len() >= 2,
{
    broadcast use {vstd::multiset::group_multiset_axioms, vstd::multiset::group_multiset_properties};

    to_multiset_len(pieces);
    let whole = pieces.to_multiset();
    let less = whole.remove(first);
    assert(less.len() == whole.len() - 1);
    assert(less.count(second) >= 1);
    let least = less.remove(second);
    assert(least.len() == less.len() - 1);
}

/// Two places of a sequence make two occurrences: of one value where they
/// hold the same, of two where they differ.
pub proof fn lemma_two_places<B>(pieces: Seq<B>, first: int, second: int)
    requires
        0 <= first < pieces.len(),
        0 <= second < pieces.len(),
        first != second,
    ensures
        if pieces[first] == pieces[second] {
            occurrences(pieces, pieces[first]) >= 2
        } else {
            occurrences(pieces, pieces[first]) >= 1 && occurrences(pieces, pieces[second]) >= 1
        },
{
    broadcast use {vstd::multiset::group_multiset_axioms, vstd::multiset::group_multiset_properties};

    let (low, high) = if first < second {
        (first, second)
    } else {
        (second, first)
    };
    let without = pieces.remove(high);
    to_multiset_remove(pieces, high);
    assert(without[low] == pieces[low]);
    to_multiset_contains(without, pieces[low]);
    to_multiset_contains(pieces, pieces[high]);
    to_multiset_contains(pieces, pieces[low]);
    assert(pieces.contains(pieces[high]));
    assert(pieces.contains(pieces[low]));
    assert(without.contains(pieces[low]));
}

} // verus!
