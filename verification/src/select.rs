//! Choosing the one item of a sequence that meets a condition.
use vstd::prelude::*;

verus! {

/// The item of a sequence that holds exactly one.
pub open spec fn sole<A>(items: Seq<A>) -> Option<A> {
    if items.len() == 1 {
        Some(items[0])
    } else {
        None
    }
}

/// The first item that meets a condition.
pub open spec fn first_where<A>(items: Seq<A>, wanted: spec_fn(A) -> bool) -> Option<A>
    decreases items.len(),
{
    if items.len() == 0 {
        None
    } else if wanted(items.first()) {
        Some(items.first())
    } else {
        first_where(items.drop_first(), wanted)
    }
}

/// With one place that meets the condition, selecting leaves the item there.
pub proof fn lemma_one_place<A>(items: Seq<A>, wanted: spec_fn(A) -> bool, i: int)
    requires
        0 <= i < items.len(),
        wanted(items[i]),
        forall|j: int| 0 <= j < items.len() && j != i ==> !wanted(#[trigger] items[j]),
    ensures
        items.filter(wanted) == seq![items[i]],
{
    lemma_no_place(items.take(i), wanted);
    lemma_no_place(items.skip(i + 1), wanted);
    assert(items == items.take(i).push(items[i]) + items.skip(i + 1));
    Seq::filter_distributes_over_add(items.take(i).push(items[i]), items.skip(i + 1), wanted);
    items.take(i).lemma_filter_push(items[i], wanted);
}

/// With no place that meets the condition, selecting leaves nothing.
pub proof fn lemma_no_place<A>(items: Seq<A>, wanted: spec_fn(A) -> bool)
    requires
        forall|j: int| 0 <= j < items.len() ==> !wanted(#[trigger] items[j]),
    ensures
        items.filter(wanted) == Seq::<A>::empty(),
    decreases items.len(),
{
    reveal(Seq::filter);
    if items.len() > 0 {
        lemma_no_place(items.drop_last(), wanted);
    }
}

/// With two places that meet the condition, selecting leaves more than one item.
pub proof fn lemma_two_places<A>(items: Seq<A>, wanted: spec_fn(A) -> bool, i: int, j: int)
    requires
        0 <= i < j < items.len(),
        wanted(items[i]),
        wanted(items[j]),
    ensures
        items.filter(wanted).len() >= 2,
{
    let front = items.take(j);
    let back = items.skip(j);
    assert(items == front + back);
    Seq::filter_distributes_over_add(front, back, wanted);
    front.lemma_filter_contains(wanted, i);
    back.lemma_filter_contains(wanted, 0);
}

/// What an item maps to is among what the items map to.
pub proof fn lemma_mapped_item<A, B>(items: Seq<A>, f: spec_fn(A) -> Option<B>, i: int)
    requires
        0 <= i < items.len(),
        f(items[i]) is Some,
    ensures
        items.filter_map(f).contains(f(items[i])->0),
    decreases items.len(),
{
    let mapped = items.filter_map(f);
    let found = f(items[i])->0;
    if i == items.len() - 1 {
        assert(mapped[mapped.len() - 1] == found);
    } else {
        let shorter = items.drop_last();
        lemma_mapped_item(shorter, f, i);
        let k = choose|k: int|
            0 <= k < shorter.filter_map(f).len() && shorter.filter_map(f)[k] == found;
        assert(mapped[k] == found);
    }
}

/// The place of an item that something among the mapped ones comes from.
pub proof fn lemma_mapped_from<A, B>(items: Seq<A>, f: spec_fn(A) -> Option<B>, found: B) -> (i: int)
    requires
        items.filter_map(f).contains(found),
    ensures
        0 <= i < items.len(),
        f(items[i]) == Some(found),
{
    items.lemma_filter_map_contains(f, found);
    let item = choose|item: A| #[trigger] items.contains(item) && f(item) == Some(found);
    choose|i: int| 0 <= i < items.len() && items[i] == item
}

/// The sole item that meets a condition stands somewhere and meets it.
pub proof fn lemma_sole_place<A>(items: Seq<A>, wanted: spec_fn(A) -> bool)
    ensures
        sole(items.filter(wanted)) matches Some(item) ==> items.contains(item) && wanted(item),
{
    if let Some(item) = sole(items.filter(wanted)) {
        items.lemma_filter_pred(wanted, 0);
        assert(items.filter(wanted).contains(item));
        items.lemma_filter_contains_rev(wanted, item);
    }
}

/// The first item that meets a condition stands somewhere and meets it.
pub proof fn lemma_first_where_meets<A>(items: Seq<A>, wanted: spec_fn(A) -> bool)
    ensures
        first_where(items, wanted) matches Some(item) ==> items.contains(item) && wanted(item),
    decreases items.len(),
{
    if items.len() > 0 {
        if wanted(items.first()) {
            assert(items[0] == items.first());
        } else {
            let rest = items.drop_first();
            lemma_first_where_meets(rest, wanted);
            if let Some(item) = first_where(rest, wanted) {
                let i = choose|i: int| 0 <= i < rest.len() && rest[i] == item;
                assert(items[i + 1] == item);
            }
        }
    }
}

} // verus!
