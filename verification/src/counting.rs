//! Counting the items of a sequence that have some property.

use vstd::prelude::*;

verus! {

/// How many items of `items` satisfy `wanted`.
pub open spec fn count<A>(items: Seq<A>, wanted: spec_fn(A) -> bool) -> nat {
    items.filter(wanted).len()
}

/// 1 where the condition holds, else 0.
pub open spec fn one_if(condition: bool) -> int {
    if condition {
        1
    } else {
        0
    }
}

/// Counting one item more.
pub proof fn lemma_count_step<A>(items: Seq<A>, wanted: spec_fn(A) -> bool, n: int)
    requires
        0 <= n < items.len(),
    ensures
        count(items.take(n + 1), wanted) == count(items.take(n), wanted) + one_if(
            wanted(items[n]),
        ),
        count(items.take(0), wanted) == 0,
        count(items.take(n), wanted) <= n,
{
    reveal(Seq::filter);
    assert(items.take(n + 1).drop_last() =~= items.take(n));
    assert(items.take(0) =~= Seq::empty());
    items.take(n).lemma_filter_len(wanted);
}

/// Nothing is counted in an empty sequence, and no more than there are items.
pub proof fn lemma_count_bounds<A>(items: Seq<A>, wanted: spec_fn(A) -> bool)
    ensures
        count(items, wanted) <= items.len(),
        items.len() == 0 ==> count(items, wanted) == 0,
{
    items.lemma_filter_len(wanted);
}

/// Replacing one item changes the count by what the old item and the new one contribute.
pub proof fn lemma_count_update<A>(items: Seq<A>, wanted: spec_fn(A) -> bool, i: int, item: A)
    requires
        0 <= i < items.len(),
    ensures
        count(items.update(i, item), wanted) == count(items, wanted) - one_if(wanted(items[i]))
            + one_if(wanted(item)),
{
    reveal(Seq::filter);
    let front = items.take(i);
    let back = items.skip(i + 1);
    assert(items =~= front + seq![items[i]] + back);
    assert(items.update(i, item) =~= front + seq![item] + back);
    Seq::filter_distributes_over_add(front + seq![items[i]], back, wanted);
    Seq::filter_distributes_over_add(front, seq![items[i]], wanted);
    Seq::filter_distributes_over_add(front + seq![item], back, wanted);
    Seq::filter_distributes_over_add(front, seq![item], wanted);
    assert(seq![items[i]].drop_last() =~= Seq::<A>::empty());
    assert(seq![item].drop_last() =~= Seq::<A>::empty());
    assert(seq![items[i]].last() == items[i]);
    assert(seq![item].last() == item);
    assert(Seq::<A>::empty().filter(wanted) =~= Seq::<A>::empty());
}

} // verus!
