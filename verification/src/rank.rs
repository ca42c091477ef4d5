//! Ranking by a key, the greatest first, equal keys in the order in which
//! they came.

use vstd::prelude::*;
use vstd::relations::{sorted_by, total_ordering};
use vstd::seq_lib::{lemma_sorted_unique, to_multiset_build, to_multiset_insert};

verus! {

/// Whether position `a` comes before position `b`, or is `b`: its key is
/// greater, or the keys are equal and `a` is not the later position.
pub open spec fn precedes(keys: Seq<u128>, a: int, b: int) -> bool {
    keys[a] > keys[b] || (keys[a] == keys[b] && a <= b)
}

/// The order of the positions of `keys`, as a relation.
pub open spec fn rank_order(keys: Seq<u128>) -> spec_fn(int, int) -> bool {
    |a: int, b: int| precedes(keys, a, b)
}

/// The positions of `keys` in their own order.
pub open spec fn positions(keys: Seq<u128>) -> Seq<int> {
    Seq::new(keys.len(), |i: int| i)
}

/// Whether `order` is the ranking of `keys`: it holds each position of
/// `keys` once, and each before those that it precedes.
pub open spec fn is_ranking(keys: Seq<u128>, order: Seq<int>) -> bool {
    &&& order.to_multiset() == positions(keys).to_multiset()
    &&& forall|i: int, j: int| 0 <= i < j < order.len() ==> precedes(keys, order[i], order[j])
}

/// The ranking of `keys`.
pub open spec fn ranking(keys: Seq<u128>) -> Seq<int> {
    choose|order: Seq<int>| is_ranking(keys, order)
}

/// To come before or be the same is a total order of positions: of two
/// positions one comes first, and only a position comes first with itself.
pub proof fn rank_order_is_total(keys: Seq<u128>)
    ensures
        total_ordering(rank_order(keys)),
{
    let r = rank_order(keys);
    assert forall|x: int, y: int| #[trigger] r(x, y) && #[trigger] r(y, x) implies x == y by {}
    assert forall|x: int, y: int, z: int| #[trigger] r(x, y) && #[trigger] r(y, z) implies r(
        x,
        z,
    ) by {}
    assert forall|x: int, y: int| #[trigger] r(x, y) || #[trigger] r(y, x) by {}
    assert forall|x: int| #[trigger] r(x, x) by {}
}

/// Every sequence of keys has a ranking.
pub proof fn ranking_exists(keys: Seq<u128>)
    ensures
        is_ranking(keys, ranking(keys)),
{
    rank_order_is_total(keys);
    let sorted = positions(keys).sort_by(rank_order(keys));
    positions(keys).lemma_sort_by_ensures(rank_order(keys));
    assert(is_ranking(keys, sorted)) by {
        assert forall|i: int, j: int| 0 <= i < j < sorted.len() implies precedes(
            keys,
            sorted[i],
            sorted[j],
        ) by {
            assert(rank_order(keys)(sorted[i], sorted[j]));
        }
    }
}

/// The keys have one ranking only; it is as long as the keys, and holds
/// positions of the keys alone.
pub proof fn ranking_is_unique(keys: Seq<u128>, order: Seq<int>)
    requires
        is_ranking(keys, order),
    ensures
        order == ranking(keys),
        order.len() == keys.len(),
        forall|i: int| 0 <= i < order.len() ==> 0 <= #[trigger] order[i] < keys.len(),
{
    let other = ranking(keys);
    assert(is_ranking(keys, other));
    rank_order_is_total(keys);
    assert(sorted_by(order, rank_order(keys)));
    assert(sorted_by(other, rank_order(keys)));
    lemma_sorted_unique(order, other, rank_order(keys));
    order.to_multiset_ensures();
    positions(keys).to_multiset_ensures();
    assert forall|i: int| 0 <= i < order.len() implies 0 <= #[trigger] order[i] < keys.len() by {
        assert(order.to_multiset().contains(order[i]));
        assert(positions(keys).contains(order[i]));
    }
}

/// The positions of `order` as mathematical integers.
pub open spec fn as_positions(order: Seq<usize>) -> Seq<int> {
    order.map_values(|i: usize| i as int)
}

/// Ranks the positions of `keys`: the greatest key first, and of equal keys
/// the one that stands first.
pub fn rank_descending(keys: &Vec<u128>) -> (order: Vec<usize>)
    ensures
        is_ranking(keys@, as_positions(order@)),
        as_positions(order@) == ranking(keys@),
        order@.len() == keys@.len(),
        forall|i: int| 0 <= i < order@.len() ==> order@[i] < keys@.len(),
{
    let mut order: Vec<usize> = Vec::new();
    let mut i: usize = 0;
    assert(as_positions(order@) == positions(keys@).take(0));
    while i < keys.len()
        invariant
            i <= keys.len(),
            order@.len() == i,
            forall|k: int| 0 <= k < order@.len() ==> order@[k] < i,
            as_positions(order@).to_multiset() == positions(keys@).take(i as int).to_multiset(),
            forall|a: int, b: int|
                0 <= a < b < order@.len() ==> precedes(keys@, order@[a] as int, order@[b] as int),
        decreases keys.len() - i,
    {
        let key = keys[i];
        let mut at: usize = order.len();
        while at > 0 && keys[order[at - 1]] < key
            invariant
                at <= order@.len(),
                i < keys.len(),
                key == keys@[i as int],
                forall|k: int| 0 <= k < order@.len() ==> order@[k] < i,
                forall|k: int| at <= k < order@.len() ==> keys@[order@[k] as int] < key,
            decreases at,
        {
            at -= 1;
        }
        proof {
            let before = as_positions(order@);
            let after = order@.insert(at as int, i);
            assert(as_positions(after) == before.insert(at as int, i as int));
            to_multiset_insert(before, at as int, i as int);
            assert(positions(keys@).take(i + 1) == positions(keys@).take(i as int).push(i as int));
            to_multiset_build(positions(keys@).take(i as int), i as int);
            assert forall|a: int, b: int| 0 <= a < b < after.len() implies precedes(
                keys@,
                after[a] as int,
                after[b] as int,
            ) by {
                if a < at && b > at {
                    assert(after[a] == order@[a] && after[b] == order@[b - 1]);
                } else if a < at && b < at {
                    assert(after[a] == order@[a] && after[b] == order@[b]);
                } else if a > at {
                    assert(after[a] == order@[a - 1] && after[b] == order@[b - 1]);
                } else if a == at {
                    assert(after[b] == order@[b - 1]);
                } else {
                    assert(b == at && after[a] == order@[a]);
                    assert(keys@[order@[at - 1] as int] >= key);
                    if a < at - 1 {
                        assert(precedes(keys@, order@[a] as int, order@[at - 1] as int));
                    }
                }
            }
        }
        order.insert(at, i);
        i += 1;
    }
    proof {
        assert(positions(keys@).take(keys.len() as int) == positions(keys@));
        ranking_is_unique(keys@, as_positions(order@));
    }
    order
}

} // verus!
