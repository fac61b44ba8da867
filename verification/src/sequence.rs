//! Facts about filtering maps over sequences.

use vstd::prelude::*;

verus! {

/// The places of the items that a filtering map lets pass, in rising order.
pub open spec fn kept_places<A, B>(items: Seq<A>, f: spec_fn(A) -> Option<B>) -> Seq<int>
    decreases items.len(),
{
    if items.len() == 0 {
        Seq::empty()
    } else if f(items.last()) is Some {
        kept_places(items.drop_last(), f).push(items.len() - 1)
    } else {
        kept_places(items.drop_last(), f)
    }
}

/// What comes out of a filtering map, place by place: the items that it
/// maps to something, each mapped, in the order in which they went in.
pub proof fn lemma_filter_map_places<A, B>(items: Seq<A>, f: spec_fn(A) -> Option<B>)
    ensures
        kept_places(items, f).len() == items.filter_map(f).len(),
        forall|i: int|
            0 <= i < kept_places(items, f).len() ==> {
                &&& 0 <= #[trigger] kept_places(items, f)[i] < items.len()
                &&& f(items[kept_places(items, f)[i]]) == Some(items.filter_map(f)[i])
            },
        forall|i: int, j: int|
            0 <= i < j < kept_places(items, f).len() ==> #[trigger] kept_places(items, f)[i]
                < #[trigger] kept_places(items, f)[j],
        forall|k: int|
            0 <= k < items.len() && f(#[trigger] items[k]) is Some ==> kept_places(
                items,
                f,
            ).contains(k),
    decreases items.len(),
{
    if items.len() > 0 {
        let front = items.drop_last();
        let last = items.len() - 1;
        lemma_filter_map_places(front, f);
        let places = kept_places(items, f);
        let before = kept_places(front, f);
        assert forall|i: int| 0 <= i < places.len() implies {
            &&& 0 <= #[trigger] places[i] < items.len()
            &&& f(items[places[i]]) == Some(items.filter_map(f)[i])
        } by {
            if i < before.len() {
                assert(places[i] == before[i]);
                assert(items[before[i]] == front[before[i]]);
            }
        }
        assert forall|i: int, j: int| 0 <= i < j < places.len() implies #[trigger] places[i]
            < #[trigger] places[j] by {
            assert(places[i] == before[i]);
            if j < before.len() {
                assert(places[j] == before[j]);
            }
        }
        assert forall|k: int| 0 <= k < items.len() && f(#[trigger] items[k]) is Some implies
            places.contains(k) by {
            if k < last {
                assert(front[k] == items[k]);
                let i = choose|i: int| 0 <= i < before.len() && before[i] == k;
                assert(places[i] == k);
            } else {
                assert(places[places.len() - 1] == k);
            }
        }
    }
}

/// As many items pass a filtering map as there are items that it maps to
/// something.
pub proof fn lemma_filter_map_counts_mapped<A, B>(
    items: Seq<A>,
    f: spec_fn(A) -> Option<B>,
    mapped: spec_fn(A) -> bool,
)
    requires
        forall|item: A| #[trigger] mapped(item) == (f(item) is Some),
    ensures
        items.filter_map(f).len() == items.filter(mapped).len(),
    decreases items.len(),
{
    reveal(Seq::filter);
    if items.len() > 0 {
        lemma_filter_map_counts_mapped(items.drop_last(), f, mapped);
    }
}

} // verus!
