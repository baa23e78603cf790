//! Stable ordering: items sorted by rank, ties left in their given order.

use vstd::prelude::*;

verus! {

/// `sorted` with `item` put behind everything that it does not outrank.
pub open spec fn insert_by<T>(
    sorted: Seq<T>,
    item: T,
    outranks: spec_fn(T, T) -> bool,
) -> Seq<T>
    decreases sorted.len(),
{
    if sorted.len() > 0 && outranks(item, sorted.last()) {
        insert_by(sorted.drop_last(), item, outranks).push(sorted.last())
    } else {
        sorted.push(item)
    }
}

/// The items by rank, highest first. Items of the same rank keep the order in
/// which they were given.
pub open spec fn stable_sort<T>(items: Seq<T>, outranks: spec_fn(T, T) -> bool) -> Seq<T>
    decreases items.len(),
{
    if items.len() == 0 {
        items
    } else {
        insert_by(stable_sort(items.drop_last(), outranks), items.last(), outranks)
    }
}

/// Whether `outranks` splits all values into ranks: it is a strict order, and
/// two values that neither outranks the other compare alike with any third.
pub open spec fn is_ranking<T>(outranks: spec_fn(T, T) -> bool) -> bool {
    &&& forall|a: T, b: T| #[trigger] outranks(a, b) ==> !outranks(b, a)
    &&& forall|a: T, b: T, c: T| #[trigger]
        outranks(a, c) ==> #[trigger] outranks(a, b) || outranks(b, c)
}

/// Whether no item stands behind one that it outranks.
pub open spec fn in_rank_order<T>(items: Seq<T>, outranks: spec_fn(T, T) -> bool) -> bool {
    forall|i: int, j: int|
        0 <= i < j < items.len() ==> !outranks(#[trigger] items[j], #[trigger] items[i])
}

proof fn insert_by_position<T>(
    sorted: Seq<T>,
    item: T,
    outranks: spec_fn(T, T) -> bool,
    at: int,
)
    requires
        0 <= at <= sorted.len(),
        forall|k: int| at <= k < sorted.len() ==> outranks(item, #[trigger] sorted[k]),
        at == 0 || !outranks(item, sorted[at - 1]),
    ensures
        insert_by(sorted, item, outranks) == sorted.insert(at, item),
    decreases sorted.len(),
{
    if at < sorted.len() {
        insert_by_position(sorted.drop_last(), item, outranks, at);
        assert(sorted.insert(at, item) =~= sorted.drop_last().insert(at, item).push(sorted.last()));
    } else {
        assert(sorted.insert(at, item) =~= sorted.push(item));
    }
}

proof fn insert_by_keeps_items<T>(sorted: Seq<T>, item: T, outranks: spec_fn(T, T) -> bool)
    ensures
        insert_by(sorted, item, outranks).to_multiset() == sorted.to_multiset().insert(item),
        insert_by(sorted, item, outranks).len() == sorted.len() + 1,
    decreases sorted.len(),
{
    broadcast use vstd::seq_lib::group_to_multiset_ensures;

    if sorted.len() > 0 && outranks(item, sorted.last()) {
        insert_by_keeps_items(sorted.drop_last(), item, outranks);
        let rest = insert_by(sorted.drop_last(), item, outranks);
        assert(sorted =~= sorted.drop_last().push(sorted.last()));
        assert(rest.push(sorted.last()).to_multiset() =~= sorted.to_multiset().insert(item));
    }
}

/// Sorting neither drops nor adds an item.
pub proof fn stable_sort_keeps_items<T>(items: Seq<T>, outranks: spec_fn(T, T) -> bool)
    ensures
        stable_sort(items, outranks).to_multiset() == items.to_multiset(),
        stable_sort(items, outranks).len() == items.len(),
    decreases items.len(),
{
    broadcast use vstd::seq_lib::group_to_multiset_ensures;

    if items.len() > 0 {
        stable_sort_keeps_items(items.drop_last(), outranks);
        insert_by_keeps_items(stable_sort(items.drop_last(), outranks), items.last(), outranks);
        assert(items =~= items.drop_last().push(items.last()));
    }
}

proof fn insert_by_in_order<T>(sorted: Seq<T>, item: T, outranks: spec_fn(T, T) -> bool)
    requires
        is_ranking(outranks),
        in_rank_order(sorted, outranks),
    ensures
        in_rank_order(insert_by(sorted, item, outranks), outranks),
        forall|k: int|
            0 <= k < insert_by(sorted, item, outranks).len() ==> {
                let x = #[trigger] insert_by(sorted, item, outranks)[k];
                x == item || sorted.contains(x)
            },
    decreases sorted.len(),
{
    let result = insert_by(sorted, item, outranks);
    if sorted.len() > 0 && outranks(item, sorted.last()) {
        let front = sorted.drop_last();
        assert(in_rank_order(front, outranks));
        insert_by_in_order(front, item, outranks);
        let rest = insert_by(front, item, outranks);
        assert forall|k: int| 0 <= k < rest.len() implies !outranks(
            sorted.last(),
            #[trigger] rest[k],
        ) by {
            if rest[k] == item {
                assert(outranks(item, sorted.last()));
            } else {
                assert(front.contains(rest[k]));
                let j = choose|j: int| 0 <= j < front.len() && front[j] == rest[k];
                assert(sorted[j] == rest[k]);
                assert(sorted[sorted.len() - 1] == sorted.last());
            }
        }
        assert forall|k: int| 0 <= k < result.len() implies ({
            let x = #[trigger] result[k];
            x == item || sorted.contains(x)
        }) by {
            if k < rest.len() {
                assert(result[k] == rest[k]);
                if rest[k] != item {
                    assert(front.contains(rest[k]));
                    let j = choose|j: int| 0 <= j < front.len() && front[j] == rest[k];
                    assert(sorted[j] == rest[k]);
                }
            } else {
                assert(sorted[sorted.len() - 1] == result[k]);
            }
        }
    } else {
        if sorted.len() > 0 {
            assert forall|i: int| 0 <= i < sorted.len() implies !outranks(
                item,
                #[trigger] sorted[i],
            ) by {
                if outranks(item, sorted[i]) && i < sorted.len() - 1 {
                    // Otherwise the last item would outrank an earlier one.
                    assert(outranks(item, sorted.last()) || outranks(sorted.last(), sorted[i]));
                }
            }
        }
        assert forall|k: int| 0 <= k < result.len() implies ({
            let x = #[trigger] result[k];
            x == item || sorted.contains(x)
        }) by {
            if k < sorted.len() {
                assert(sorted[k] == result[k]);
            }
        }
    }
}

/// No item of the sorted sequence stands behind one that it outranks.
pub proof fn stable_sort_in_rank_order<T>(items: Seq<T>, outranks: spec_fn(T, T) -> bool)
    requires
        is_ranking(outranks),
    ensures
        in_rank_order(stable_sort(items, outranks), outranks),
    decreases items.len(),
{
    if items.len() > 0 {
        stable_sort_in_rank_order(items.drop_last(), outranks);
        insert_by_in_order(stable_sort(items.drop_last(), outranks), items.last(), outranks);
    }
}

/// The items that share the rank of `like`.
pub open spec fn tied_with<T>(like: T, outranks: spec_fn(T, T) -> bool) -> spec_fn(T) -> bool {
    |x: T| !outranks(x, like) && !outranks(like, x)
}

proof fn filter_push<T>(items: Seq<T>, item: T, keep: spec_fn(T) -> bool)
    ensures
        items.push(item).filter(keep) == if keep(item) {
            items.filter(keep).push(item)
        } else {
            items.filter(keep)
        },
{
    reveal(Seq::filter);
    assert(items.push(item).drop_last() =~= items);
}

proof fn insert_by_keeps_ties<T>(
    sorted: Seq<T>,
    item: T,
    outranks: spec_fn(T, T) -> bool,
    like: T,
)
    requires
        is_ranking(outranks),
    ensures
        insert_by(sorted, item, outranks).filter(tied_with(like, outranks)) == sorted.push(
            item,
        ).filter(tied_with(like, outranks)),
    decreases sorted.len(),
{
    let tied = tied_with(like, outranks);
    if sorted.len() > 0 && outranks(item, sorted.last()) {
        let front = sorted.drop_last();
        let rest = insert_by(front, item, outranks);
        insert_by_keeps_ties(front, item, outranks, like);
        filter_push(front, item, tied);
        filter_push(rest, sorted.last(), tied);
        filter_push(front, sorted.last(), tied);
        filter_push(sorted, item, tied);
        assert(sorted =~= front.push(sorted.last()));
        // The item and one that it outranks cannot both be tied with `like`.
        assert(tied(item) && tied(sorted.last()) ==> outranks(item, like) || outranks(
            like,
            sorted.last(),
        ));
    }
}

/// Items of the same rank keep the order in which they were given.
pub proof fn stable_sort_keeps_ties<T>(items: Seq<T>, outranks: spec_fn(T, T) -> bool, like: T)
    requires
        is_ranking(outranks),
    ensures
        stable_sort(items, outranks).filter(tied_with(like, outranks)) == items.filter(
            tied_with(like, outranks),
        ),
    decreases items.len(),
{
    if items.len() > 0 {
        let front = stable_sort(items.drop_last(), outranks);
        stable_sort_keeps_ties(items.drop_last(), outranks, like);
        insert_by_keeps_ties(front, items.last(), outranks, like);
        filter_push(front, items.last(), tied_with(like, outranks));
        filter_push(items.drop_last(), items.last(), tied_with(like, outranks));
        assert(items =~= items.drop_last().push(items.last()));
    }
}

proof fn insert_by_map<T, U>(
    sorted: Seq<T>,
    item: T,
    outranks: spec_fn(T, T) -> bool,
    image: spec_fn(T) -> U,
    image_outranks: spec_fn(U, U) -> bool,
)
    requires
        forall|a: T, b: T| #[trigger] outranks(a, b) == image_outranks(image(a), image(b)),
    ensures
        insert_by(sorted, item, outranks).map_values(image) == insert_by(
            sorted.map_values(image),
            image(item),
            image_outranks,
        ),
    decreases sorted.len(),
{
    let mapped = sorted.map_values(image);
    if sorted.len() > 0 {
        assert(outranks(item, sorted.last()) == image_outranks(image(item), mapped.last()));
        if outranks(item, sorted.last()) {
            let front = sorted.drop_last();
            insert_by_map(front, item, outranks, image, image_outranks);
            assert(mapped.drop_last() =~= front.map_values(image));
            assert(insert_by(front, item, outranks).push(sorted.last()).map_values(image)
                =~= insert_by(front, item, outranks).map_values(image).push(image(sorted.last())));
        } else {
            assert(sorted.push(item).map_values(image) =~= mapped.push(image(item)));
        }
    } else {
        assert(sorted.push(item).map_values(image) =~= mapped.push(image(item)));
    }
}

/// Sorting commutes with a map that keeps ranks.
pub proof fn stable_sort_map<T, U>(
    items: Seq<T>,
    outranks: spec_fn(T, T) -> bool,
    image: spec_fn(T) -> U,
    image_outranks: spec_fn(U, U) -> bool,
)
    requires
        forall|a: T, b: T| #[trigger] outranks(a, b) == image_outranks(image(a), image(b)),
    ensures
        stable_sort(items, outranks).map_values(image) == stable_sort(
            items.map_values(image),
            image_outranks,
        ),
    decreases items.len(),
{
    if items.len() == 0 {
        assert(items.map_values(image) =~= Seq::<U>::empty());
        assert(stable_sort(items, outranks).map_values(image) =~= Seq::<U>::empty());
    } else {
        stable_sort_map(items.drop_last(), outranks, image, image_outranks);
        insert_by_map(
            stable_sort(items.drop_last(), outranks),
            items.last(),
            outranks,
            image,
            image_outranks,
        );
        assert(items.map_values(image).drop_last() =~= items.drop_last().map_values(image));
    }
}

/// A type whose values can be ranked.
pub trait Ranked: Sized {
    /// Whether `self` goes before `other`.
    spec fn outranks(self, other: Self) -> bool;

    /// Whether `self` goes before `other`.
    fn goes_before(&self, other: &Self) -> (result: bool)
        ensures
            result == self.outranks(*other),
    ;
}

/// The ranking of a type.
pub open spec fn rank<T: Ranked>() -> spec_fn(T, T) -> bool {
    |a: T, b: T| a.outranks(b)
}

/// Puts `item` behind everything that it does not outrank.
pub fn insert_ranked<T: Ranked>(sorted: &mut Vec<T>, item: T)
    ensures
        final(sorted)@ == insert_by(old(sorted)@, item, rank::<T>()),
{
    let mut at: usize = sorted.len();
    while at > 0 && item.goes_before(&sorted[at - 1])
        invariant
            sorted@ == old(sorted)@,
            at <= sorted@.len(),
            forall|k: int| at <= k < sorted@.len() ==> item.outranks(#[trigger] sorted@[k]),
        decreases at,
    {
        at -= 1;
    }
    proof {
        insert_by_position(sorted@, item, rank::<T>(), at as int);
    }
    sorted.insert(at, item);
}

} // verus!
