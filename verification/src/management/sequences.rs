//! Facts about sequences of sequences and their flattening, which the counts
//! of free seats rest on.

use vstd::prelude::*;
use vstd::seq_lib::lemma_flatten_concat;

verus! {

/// A flattened sequence splits at any of its items: what comes before the
/// item, the item, what comes after it.
pub proof fn lemma_flatten_split<A>(items: Seq<Seq<A>>, k: int)
    requires
        0 <= k < items.len(),
    ensures
        items.flatten() == items.take(k).flatten() + items[k] + items.skip(k + 1).flatten(),
{
    let head = items.take(k);
    let item = seq![items[k]];
    let tail = items.skip(k + 1);
    assert(items =~= head + (item + tail));
    lemma_flatten_concat(item, tail);
    lemma_flatten_concat(head, item + tail);
    item.lemma_flatten_one_element();
}

/// Replacing one item changes the length of the flattened sequence by the
/// difference of the two lengths.
pub proof fn lemma_flatten_len_update<A>(items: Seq<Seq<A>>, k: int, item: Seq<A>)
    requires
        0 <= k < items.len(),
    ensures
        items.update(k, item).flatten().len() == items.flatten().len() - items[k].len()
            + item.len(),
{
    let changed = items.update(k, item);
    lemma_flatten_split(items, k);
    lemma_flatten_split(changed, k);
    assert(changed.take(k) =~= items.take(k));
    assert(changed.skip(k + 1) =~= items.skip(k + 1));
}

/// The same one level up: replacing one list of lists changes the number of
/// items in all the lists by the difference of the two counts.
pub proof fn lemma_flatten_twice_len_update<A>(
    items: Seq<Seq<Seq<A>>>,
    k: int,
    item: Seq<Seq<A>>,
)
    requires
        0 <= k < items.len(),
    ensures
        items.update(k, item).flatten().flatten().len() == items.flatten().flatten().len()
            - items[k].flatten().len() + item.flatten().len(),
{
    let changed = items.update(k, item);
    lemma_flatten_split(items, k);
    lemma_flatten_split(changed, k);
    assert(changed.take(k) =~= items.take(k));
    assert(changed.skip(k + 1) =~= items.skip(k + 1));
    let head = items.take(k).flatten();
    let tail = items.skip(k + 1).flatten();
    lemma_flatten_concat(head, items[k]);
    lemma_flatten_concat(head + items[k], tail);
    lemma_flatten_concat(head, item);
    lemma_flatten_concat(head + item, tail);
}

/// Flattening twice, item by item: the first `k + 1` items hold what the first
/// `k` hold and what item `k` holds.
pub proof fn lemma_flatten_twice_step<A>(items: Seq<Seq<Seq<A>>>, k: int)
    requires
        0 <= k < items.len(),
    ensures
        items.take(k + 1).flatten().flatten() == items.take(k).flatten().flatten()
            + items[k].flatten(),
        items.take(0).flatten().flatten() == Seq::<A>::empty(),
{
    assert(items.take(k + 1) =~= items.take(k).push(items[k]));
    items.take(k).lemma_flatten_push(items[k]);
    lemma_flatten_concat(items.take(k).flatten(), items[k]);
}

/// Flattening item by item: the first `k + 1` items hold what the first `k`
/// hold and item `k`.
pub proof fn lemma_flatten_step<A>(items: Seq<Seq<A>>, k: int)
    requires
        0 <= k < items.len(),
    ensures
        items.take(k + 1).flatten() == items.take(k).flatten() + items[k],
        items.take(0).flatten() == Seq::<A>::empty(),
{
    assert(items.take(k + 1) =~= items.take(k).push(items[k]));
    items.take(k).lemma_flatten_push(items[k]);
}

/// What a flattened sequence holds is what its items hold.
pub proof fn lemma_flatten_contains<A>(items: Seq<Seq<A>>, x: A)
    ensures
        items.flatten().contains(x) <==> exists|k: int|
            0 <= k < items.len() && (#[trigger] items[k]).contains(x),
    decreases items.len(),
{
    broadcast use vstd::seq_lib::group_seq_properties;

    if items.len() > 0 {
        let front = items.drop_last();
        let last = items.last();
        assert(items =~= front.push(last));
        front.lemma_flatten_push(last);
        lemma_flatten_contains(front, x);
        if exists|k: int| 0 <= k < items.len() && (#[trigger] items[k]).contains(x) {
            let k = choose|k: int| 0 <= k < items.len() && (#[trigger] items[k]).contains(x);
            assert(k < front.len() ==> front[k] == items[k]);
        }
    }
}

/// A flattened sequence is empty where all its items are, and only there.
pub proof fn lemma_flatten_empty<A>(items: Seq<Seq<A>>)
    ensures
        items.flatten().len() == 0 <==> forall|k: int|
            0 <= k < items.len() ==> (#[trigger] items[k]).len() == 0,
    decreases items.len(),
{
    if items.len() > 0 {
        let front = items.drop_last();
        let last = items.last();
        assert(items =~= front.push(last));
        front.lemma_flatten_push(last);
        lemma_flatten_empty(front);
    }
}

/// A flattened sequence is no longer than its items together can be: their
/// number times a bound on the length of each.
pub proof fn lemma_flatten_len_bound<A>(items: Seq<Seq<A>>, bound: nat)
    requires
        forall|k: int| 0 <= k < items.len() ==> (#[trigger] items[k]).len() <= bound,
    ensures
        items.flatten().len() <= items.len() * bound,
    decreases items.len(),
{
    if items.len() > 0 {
        let front = items.drop_last();
        let last = items.last();
        assert(items =~= front.push(last));
        front.lemma_flatten_push(last);
        assert forall|k: int| 0 <= k < front.len() implies (#[trigger] front[k]).len() <= bound by {
            assert(front[k] == items[k]);
        }
        lemma_flatten_len_bound(front, bound);
        assert(front.len() * bound + bound == items.len() * bound) by (nonlinear_arith)
            requires
                front.len() + 1 == items.len(),
        ;
    }
}

} // verus!
