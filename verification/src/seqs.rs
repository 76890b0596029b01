//! Facts about searching and filtering sequences.

use vstd::prelude::*;

verus! {

/// The first item that `pred` holds of.
pub open spec fn first<A>(items: Seq<A>, pred: spec_fn(A) -> bool) -> Option<A> {
    let fitting = items.filter(pred);
    if fitting.len() == 0 {
        None
    } else {
        Some(fitting[0])
    }
}

/// Filtering one item more.
pub proof fn lemma_filter_step<A>(items: Seq<A>, pred: spec_fn(A) -> bool, i: int)
    requires
        0 <= i < items.len(),
    ensures
        items.take(i + 1).filter(pred) == if pred(items[i]) {
            items.take(i).filter(pred).push(items[i])
        } else {
            items.take(i).filter(pred)
        },
{
    reveal(Seq::filter);
    assert(items.take(i + 1).drop_last() =~= items.take(i));
}

/// Nothing fits: nothing is left.
pub proof fn lemma_none_fits<A>(items: Seq<A>, pred: spec_fn(A) -> bool, n: int)
    requires
        0 <= n <= items.len(),
        forall|j: int| 0 <= j < n ==> !pred(#[trigger] items[j]),
    ensures
        items.take(n).filter(pred) == Seq::<A>::empty(),
        n == items.len() ==> first(items, pred) is None,
    decreases n,
{
    reveal(Seq::filter);
    if n > 0 {
        lemma_none_fits(items, pred, n - 1);
        lemma_filter_step(items, pred, n - 1);
    }
    assert(items.take(items.len() as int) =~= items);
}

/// The item at `i` fits and none before it does: it is the first.
pub proof fn lemma_first_at<A>(items: Seq<A>, pred: spec_fn(A) -> bool, i: int)
    requires
        0 <= i < items.len(),
        pred(items[i]),
        forall|j: int| 0 <= j < i ==> !pred(#[trigger] items[j]),
    ensures
        first(items, pred) == Some(items[i]),
{
    lemma_none_fits(items, pred, i);
    lemma_filter_step(items, pred, i);
    Seq::filter_distributes_over_add(items.take(i + 1), items.skip(i + 1), pred);
    assert(items =~= items.take(i + 1) + items.skip(i + 1));
}

/// What is first fits, and is one of the items.
pub proof fn lemma_first_fits<A>(items: Seq<A>, pred: spec_fn(A) -> bool)
    ensures
        first(items, pred) matches Some(item) ==> pred(item) && items.contains(item),
        first(items, pred) is None ==> forall|j: int|
            0 <= j < items.len() ==> !pred(#[trigger] items[j]),
{
    broadcast use vstd::seq_lib::group_filter_ensures;

    if first(items, pred) is Some {
        assert(pred(items.filter(pred)[0]));
        lemma_filtered_contained(items, pred, 0);
    } else {
        assert forall|j: int| 0 <= j < items.len() implies !pred(#[trigger] items[j]) by {
            if pred(items[j]) {
                assert(items.filter(pred).contains(items[j]));
            }
        }
    }
}

/// What is left after filtering was there before.
pub proof fn lemma_filtered_contained<A>(items: Seq<A>, pred: spec_fn(A) -> bool, k: int)
    requires
        0 <= k < items.filter(pred).len(),
    ensures
        items.contains(items.filter(pred)[k]),
    decreases items.len(),
{
    reveal(Seq::filter);
    if items.len() > 0 {
        let rest = items.drop_last();
        if k < rest.filter(pred).len() {
            lemma_filtered_contained(rest, pred, k);
            let j = choose|j: int| 0 <= j < rest.len() && rest[j] == rest.filter(pred)[k];
            assert(items[j] == items.filter(pred)[k]);
        } else {
            assert(items[items.len() - 1] == items.filter(pred)[k]);
        }
    }
}

/// Mapping one item more, where each gives several.
pub proof fn lemma_flat_step<A, B>(items: Seq<A>, f: spec_fn(A) -> Seq<B>, i: int)
    requires
        0 <= i < items.len(),
    ensures
        items.take(i + 1).flat_map(f) == items.take(i).flat_map(f) + f(items[i]),
{
    assert(items.take(i + 1) =~= items.take(i).push(items[i]));
    items.lemma_flat_map_take_append(f, i);
}

/// Where all items fit, all are left.
pub proof fn lemma_all_fit<A>(items: Seq<A>, pred: spec_fn(A) -> bool)
    requires
        forall|j: int| 0 <= j < items.len() ==> pred(#[trigger] items[j]),
    ensures
        items.filter(pred) == items,
    decreases items.len(),
{
    reveal(Seq::filter);
    if items.len() > 0 {
        lemma_all_fit(items.drop_last(), pred);
        assert(items =~= items.drop_last().push(items.last()));
    }
}

/// Where one item alone does not fit, the others are left.
pub proof fn lemma_one_misfit<A>(items: Seq<A>, pred: spec_fn(A) -> bool, i: int)
    requires
        0 <= i < items.len(),
        !pred(items[i]),
        forall|j: int| 0 <= j < items.len() && j != i ==> pred(#[trigger] items[j]),
    ensures
        items.filter(pred) == items.remove(i),
{
    lemma_all_fit(items.take(i), pred);
    lemma_filter_step(items, pred, i);
    lemma_all_fit(items.skip(i + 1), pred);
    Seq::filter_distributes_over_add(items.take(i + 1), items.skip(i + 1), pred);
    assert(items =~= items.take(i + 1) + items.skip(i + 1));
    assert(items.remove(i) =~= items.take(i) + items.skip(i + 1));
}

/// What holds of all that each item is mapped to holds of the whole.
pub proof fn lemma_flat_all<A, B>(
    items: Seq<A>,
    f: spec_fn(A) -> Seq<B>,
    holds: spec_fn(B) -> bool,
)
    requires
        forall|i: int, k: int|
            0 <= i < items.len() && 0 <= k < f(items[i]).len() ==> holds(#[trigger] f(items[i])[k]),
    ensures
        forall|k: int| 0 <= k < items.flat_map(f).len() ==> holds(#[trigger] items.flat_map(f)[k]),
    decreases items.len(),
{
    if items.len() == 0 {
        assert(items.flat_map(f) =~= Seq::empty());
    } else {
        let n = items.len() - 1;
        let rest = items.take(n);
        assert forall|i: int, k: int|
            0 <= i < rest.len() && 0 <= k < f(rest[i]).len() implies holds(
            #[trigger] f(rest[i])[k],
        ) by {
            assert(rest[i] == items[i]);
        }
        lemma_flat_all(rest, f, holds);
        lemma_flat_step(items, f, n);
        assert(items.take(n + 1) =~= items);
        assert(forall|k: int|
            0 <= k < f(items[n]).len() ==> holds(#[trigger] f(items[n])[k]));
    }
}

/// What holds of each item that is mapped holds of all that is left.
pub proof fn lemma_filter_map_all<A, B>(
    items: Seq<A>,
    f: spec_fn(A) -> Option<B>,
    holds: spec_fn(B) -> bool,
)
    requires
        forall|i: int|
            0 <= i < items.len() ==> (#[trigger] f(items[i]) matches Some(b) ==> holds(b)),
    ensures
        forall|k: int|
            0 <= k < items.filter_map(f).len() ==> holds(#[trigger] items.filter_map(f)[k]),
    decreases items.len(),
{
    if items.len() > 0 {
        let n = items.len() - 1;
        let rest = items.take(n);
        assert forall|i: int| 0 <= i < rest.len() implies (#[trigger] f(rest[i]) matches Some(b)
            ==> holds(b)) by {
            assert(f(rest[i]) == f(items[i]));
        }
        lemma_filter_map_all(rest, f, holds);
        items.lemma_filter_map_take_succ(f, n);
        assert(items.take(n + 1) =~= items);
        assert(f(items[n]) matches Some(b) ==> holds(b));
    } else {
        assert(items =~= Seq::empty());
    }
}

/// Of what is left after filtering, all fits.
pub proof fn lemma_filtered_fits<A>(items: Seq<A>, pred: spec_fn(A) -> bool)
    ensures
        forall|k: int| 0 <= k < items.filter(pred).len() ==> pred(#[trigger] items.filter(pred)[k]),
        forall|k: int|
            0 <= k < items.filter(pred).len() ==> items.contains(#[trigger] items.filter(pred)[k]),
{
    broadcast use vstd::seq_lib::group_filter_ensures;

    assert forall|k: int| 0 <= k < items.filter(pred).len() implies items.contains(
        #[trigger] items.filter(pred)[k],
    ) by {
        lemma_filtered_contained(items, pred, k);
    }
}

/// What an item is mapped to is found in the whole.
pub proof fn lemma_flat_contains<A, B>(items: Seq<A>, f: spec_fn(A) -> Seq<B>, i: int, b: B)
    requires
        0 <= i < items.len(),
        f(items[i]).contains(b),
    ensures
        items.flat_map(f).contains(b),
    decreases items.len(),
{
    let n = items.len() - 1;
    let rest = items.take(n);
    lemma_flat_step(items, f, n);
    assert(items.take(n + 1) =~= items);
    let before = rest.flat_map(f);
    let last = f(items[n]);
    if i < n {
        assert(rest[i] == items[i]);
        lemma_flat_contains(rest, f, i, b);
        let k = before.index_of(b);
        assert((before + last)[k] == b);
    } else {
        let k = last.index_of(b);
        assert((before + last)[before.len() + k] == b);
    }
}

/// A list in which the first `seen` items have been gone through, and those that
/// do not fit have been dropped.
pub open spec fn partly_filtered<A>(all: Seq<A>, pred: spec_fn(A) -> bool, seen: int) -> Seq<A> {
    all.take(seen).filter(pred) + all.skip(seen)
}

/// Dropping items starts with the whole list and ends with those that fit.
pub proof fn lemma_partly_filtered_ends<A>(all: Seq<A>, pred: spec_fn(A) -> bool)
    ensures
        all.take(0).filter(pred).len() == 0,
        partly_filtered(all, pred, 0) == all,
        partly_filtered(all, pred, all.len() as int) == all.filter(pred),
{
    reveal(Seq::filter);
    assert(all.take(0).filter(pred) =~= Seq::empty());
    assert(partly_filtered(all, pred, 0) =~= all);
    assert(all.take(all.len() as int) =~= all);
    assert(partly_filtered(all, pred, all.len() as int) =~= all.filter(pred));
}

/// Going through one item more: it stays where it fits, and is dropped where it
/// does not.
pub proof fn lemma_partly_filtered_step<A>(all: Seq<A>, pred: spec_fn(A) -> bool, seen: int)
    requires
        0 <= seen < all.len(),
    ensures
        ({
            let i = all.take(seen).filter(pred).len() as int;
            let list = partly_filtered(all, pred, seen);
            let next = all.take(seen + 1).filter(pred).len();
            &&& i < list.len()
            &&& list[i] == all[seen]
            &&& pred(all[seen]) ==> next == i + 1 && partly_filtered(all, pred, seen + 1) == list
            &&& !pred(all[seen]) ==> next == i && partly_filtered(all, pred, seen + 1)
                == list.remove(i)
        }),
{
    let kept = all.take(seen).filter(pred);
    let list = partly_filtered(all, pred, seen);
    lemma_filter_step(all, pred, seen);
    assert(all.skip(seen) =~= seq![all[seen]] + all.skip(seen + 1));
    if pred(all[seen]) {
        assert(partly_filtered(all, pred, seen + 1) =~= list);
    } else {
        assert(partly_filtered(all, pred, seen + 1) =~= list.remove(kept.len() as int));
    }
}

/// What an item is mapped to is among all that is left.
pub proof fn lemma_filter_map_contains<A, B>(
    items: Seq<A>,
    f: spec_fn(A) -> Option<B>,
    i: int,
)
    requires
        0 <= i < items.len(),
        f(items[i]) is Some,
    ensures
        items.filter_map(f).contains(f(items[i])->0),
    decreases items.len(),
{
    let n = items.len() - 1;
    let rest = items.take(n);
    let b = f(items[i])->0;
    items.lemma_filter_map_take_succ(f, n);
    assert(items.take(n + 1) =~= items);
    let before = rest.filter_map(f);
    if i < n {
        assert(rest[i] == items[i]);
        lemma_filter_map_contains(rest, f, i);
        let k = before.index_of(b);
        assert(items.filter_map(f)[k] == b);
    } else {
        assert(items.filter_map(f)[before.len() as int] == b);
    }
}

} // verus!
