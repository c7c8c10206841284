//! Facts about sequences that several modules share.

use vstd::prelude::*;

verus! {

/// The views of `items`, in order.
pub open spec fn views<T: View>(items: Seq<T>) -> Seq<T::V> {
    Seq::new(items.len(), |i: int| items[i]@)
}

/// Whether `index` is the first place where `matches` holds.
pub open spec fn is_first_index<T>(items: Seq<T>, matches: spec_fn(T) -> bool, index: int) -> bool {
    &&& 0 <= index < items.len()
    &&& matches(items[index])
    &&& forall|earlier: int| 0 <= earlier < index ==> !matches(#[trigger] items[earlier])
}

/// The first place where `matches` holds, if there is one.
pub open spec fn first_index<T>(items: Seq<T>, matches: spec_fn(T) -> bool) -> Option<int> {
    if exists|index: int| is_first_index(items, matches, index) {
        Some(choose|index: int| is_first_index(items, matches, index))
    } else {
        None
    }
}

pub proof fn lemma_first_index_some<T>(items: Seq<T>, matches: spec_fn(T) -> bool, index: int)
    requires
        is_first_index(items, matches, index),
    ensures
        first_index(items, matches) == Some(index),
{
    let chosen = choose|i: int| is_first_index(items, matches, i);
    assert(is_first_index(items, matches, chosen));
    if chosen < index {
        assert(!matches(items[chosen]));
    } else if index < chosen {
        assert(!matches(items[index]));
    }
}

pub proof fn lemma_first_index_none<T>(items: Seq<T>, matches: spec_fn(T) -> bool)
    requires
        forall|i: int| 0 <= i < items.len() ==> !matches(#[trigger] items[i]),
    ensures
        first_index(items, matches) is None,
{
}

/// Where something matches there is a first match.
pub proof fn lemma_first_index_exists<T>(items: Seq<T>, matches: spec_fn(T) -> bool, index: int)
    requires
        0 <= index < items.len(),
        matches(items[index]),
    ensures
        first_index(items, matches) is Some,
        is_first_index(items, matches, first_index(items, matches)->0),
        first_index(items, matches)->0 <= index,
    decreases index,
{
    if exists|earlier: int| 0 <= earlier < index && matches(#[trigger] items[earlier]) {
        let earlier = choose|earlier: int|
            0 <= earlier < index && matches(#[trigger] items[earlier]);
        lemma_first_index_exists(items, matches, earlier);
    } else {
        assert(is_first_index(items, matches, index));
        lemma_first_index_some(items, matches, index);
    }
}

pub proof fn lemma_views_push<T: View>(items: Seq<T>, item: T)
    ensures
        views(items.push(item)) == views(items).push(item@),
{
    assert(views(items.push(item)) =~= views(items).push(item@));
}

pub proof fn lemma_views_update<T: View>(items: Seq<T>, index: int, item: T)
    requires
        0 <= index < items.len(),
    ensures
        views(items.update(index, item)) == views(items).update(index, item@),
{
    assert(views(items.update(index, item)) =~= views(items).update(index, item@));
}

pub proof fn lemma_views_remove<T: View>(items: Seq<T>, index: int)
    requires
        0 <= index < items.len(),
    ensures
        views(items.remove(index)) == views(items).remove(index),
{
    assert(views(items.remove(index)) =~= views(items).remove(index));
}

pub proof fn lemma_views_insert<T: View>(items: Seq<T>, index: int, item: T)
    requires
        0 <= index <= items.len(),
    ensures
        views(items.insert(index, item)) == views(items).insert(index, item@),
{
    assert(views(items.insert(index, item)) =~= views(items).insert(index, item@));
}

/// What `items` weigh together, each as `weight` says.
pub open spec fn total<T>(items: Seq<T>, weight: spec_fn(T) -> nat) -> nat
    decreases items.len(),
{
    if items.len() == 0 {
        0
    } else {
        total(items.drop_last(), weight) + weight(items.last())
    }
}

pub proof fn lemma_total_push<T>(items: Seq<T>, item: T, weight: spec_fn(T) -> nat)
    ensures
        total(items.push(item), weight) == total(items, weight) + weight(item),
{
    assert(items.push(item).drop_last() =~= items);
}

pub proof fn lemma_total_insert<T>(items: Seq<T>, index: int, item: T, weight: spec_fn(T) -> nat)
    requires
        0 <= index <= items.len(),
    ensures
        total(items.insert(index, item), weight) == total(items, weight) + weight(item),
    decreases items.len(),
{
    if index == items.len() {
        assert(items.insert(index, item) =~= items.push(item));
        lemma_total_push(items, item, weight);
    } else {
        assert(items.insert(index, item).drop_last() =~= items.drop_last().insert(index, item));
        lemma_total_insert(items.drop_last(), index, item, weight);
    }
}

pub proof fn lemma_total_remove<T>(items: Seq<T>, index: int, weight: spec_fn(T) -> nat)
    requires
        0 <= index < items.len(),
    ensures
        total(items, weight) == total(items.remove(index), weight) + weight(items[index]),
{
    assert(items.remove(index).insert(index, items[index]) =~= items);
    lemma_total_insert(items.remove(index), index, items[index], weight);
}

pub proof fn lemma_total_update<T>(items: Seq<T>, index: int, item: T, weight: spec_fn(T) -> nat)
    requires
        0 <= index < items.len(),
    ensures
        total(items.update(index, item), weight) + weight(items[index]) == total(items, weight)
            + weight(item),
{
    lemma_total_remove(items, index, weight);
    assert(items.remove(index).insert(index, item) =~= items.update(index, item));
    lemma_total_insert(items.remove(index), index, item, weight);
}

/// Where each item weighs no more by one measure than by another, so do all.
pub proof fn lemma_total_bounded<T>(
    items: Seq<T>,
    lighter: spec_fn(T) -> nat,
    heavier: spec_fn(T) -> nat,
)
    requires
        forall|i: int| 0 <= i < items.len() ==> lighter(#[trigger] items[i]) <= heavier(items[i]),
    ensures
        total(items, lighter) <= total(items, heavier),
    decreases items.len(),
{
    if items.len() > 0 {
        lemma_total_bounded(items.drop_last(), lighter, heavier);
    }
}

/// No item weighs more than all.
pub proof fn lemma_total_member<T>(items: Seq<T>, index: int, weight: spec_fn(T) -> nat)
    requires
        0 <= index < items.len(),
    ensures
        weight(items[index]) <= total(items, weight),
{
    lemma_total_remove(items, index, weight);
}

pub proof fn lemma_total_concat<T>(first: Seq<T>, second: Seq<T>, weight: spec_fn(T) -> nat)
    ensures
        total(first + second, weight) == total(first, weight) + total(second, weight),
    decreases second.len(),
{
    if second.len() == 0 {
        assert(first + second =~= first);
    } else {
        assert((first + second).drop_last() =~= first + second.drop_last());
        lemma_total_concat(first, second.drop_last(), weight);
    }
}

/// Counts `item` alone.
pub open spec fn same_as<T>(item: T) -> spec_fn(T) -> nat {
    |other: T|
        if other == item {
            1nat
        } else {
            0nat
        }
}

/// How often `item` occurs in `items`.
pub open spec fn occurrences<T>(items: Seq<T>, item: T) -> nat {
    total(items, same_as(item))
}

pub proof fn lemma_occurrences_contains<T>(items: Seq<T>, item: T)
    ensures
        occurrences(items, item) > 0 <==> items.contains(item),
    decreases items.len(),
{
    if items.len() > 0 {
        lemma_occurrences_contains(items.drop_last(), item);
        if items.contains(item) {
            let i = choose|i: int| 0 <= i < items.len() && items[i] == item;
            if i < items.len() - 1 {
                assert(items.drop_last()[i] == item);
            }
        }
        if items.drop_last().contains(item) {
            let i = choose|i: int|
                0 <= i < items.drop_last().len() && items.drop_last()[i] == item;
            assert(items[i] == item);
        }
        if items.last() == item {
            assert(items[items.len() - 1] == item);
        }
    }
}

/// The same values from the last to the first.
pub(crate) fn reversed<T>(values: Vec<T>) -> (result: Vec<T>)
    ensures
        result@.len() == values@.len(),
        forall|i: int|
            0 <= i < result@.len() ==> #[trigger] result@[i] == values@[values@.len() - 1 - i],
{
    let ghost all = values@;
    let mut waiting = values;
    let mut result: Vec<T> = Vec::new();
    while waiting.len() > 0
        invariant
            waiting@.len() + result@.len() == all.len(),
            waiting@ =~= all.take(waiting@.len() as int),
            forall|i: int|
                0 <= i < result@.len() ==> #[trigger] result@[i] == all[all.len() - 1 - i],
        decreases waiting@.len(),
    {
        if let Some(last) = waiting.pop() {
            result.push(last);
        }
    }
    result
}

} // verus!
