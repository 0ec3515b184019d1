//! Ordering a list by a group and a name: the first group before the
//! second, and names in dictionary order inside a group.

use crate::text::{before, before_is_one_way, comes_before, not_before_chains};
use vstd::prelude::*;

verus! {

/// What an item is ordered by, as a mathematical value.
pub struct SortKey {
    /// Whether the item belongs to the second group.
    pub late: bool,
    pub name: Seq<char>,
}

/// What an item is ordered by.
pub struct RankKey {
    /// Whether the item belongs to the second group.
    pub late: bool,
    pub name: Vec<char>,
}

impl View for RankKey {
    type V = SortKey;

    open spec fn view(&self) -> SortKey {
        SortKey { late: self.late, name: self.name@ }
    }
}

/// The view of each key of a list.
pub open spec fn sort_keys(v: Seq<RankKey>) -> Seq<SortKey> {
    v.map_values(|k: RankKey| k@)
}

/// Whether an item with key `a` must stand before one with key `b`.
pub open spec fn precedes(a: SortKey, b: SortKey) -> bool {
    (!a.late && b.late) || (a.late == b.late && before(a.name, b.name))
}

/// Whether an item with key `a` must stand before one with key `b`.
pub fn must_precede(a: &RankKey, b: &RankKey) -> (r: bool)
    ensures
        r == precedes(a@, b@),
{
    if a.late != b.late {
        !a.late
    } else {
        comes_before(&a.name, &b.name)
    }
}

/// The order `order` with the item `i` put in: behind every item that need
/// not stand behind it.
pub open spec fn placed(order: Seq<int>, keys: Seq<SortKey>, i: int) -> Seq<int>
    decreases order.len(),
{
    if order.len() == 0 {
        seq![i]
    } else if precedes(keys[i], keys[order.last()]) {
        placed(order.drop_last(), keys, i).push(order.last())
    } else {
        order.push(i)
    }
}

/// The order of the first `n` items: each put in turn into the order of
/// those before it. Items with equal keys keep their order.
pub open spec fn ranking_of(keys: Seq<SortKey>, n: nat) -> Seq<int>
    decreases n,
{
    if n == 0 {
        Seq::empty()
    } else {
        placed(ranking_of(keys, (n - 1) as nat), keys, n - 1)
    }
}

/// The indices of the items with keys `keys`, in the order in which the
/// items are listed.
pub open spec fn ranking(keys: Seq<SortKey>) -> Seq<int> {
    ranking_of(keys, keys.len())
}

/// Putting `i` in at `p` is `placed`, where every item from `p` on must
/// stand behind `i` and the item before `p` need not.
pub proof fn placed_at(order: Seq<int>, keys: Seq<SortKey>, i: int, p: int)
    requires
        0 <= p <= order.len(),
        forall|j: int| p <= j < order.len() ==> precedes(keys[i], keys[#[trigger] order[j]]),
        p > 0 ==> !precedes(keys[i], keys[order[p - 1]]),
    ensures
        placed(order, keys, i) == order.insert(p, i),
    decreases order.len(),
{
    if order.len() == 0 {
        assert(order.insert(p, i) =~= seq![i]);
    } else if p == order.len() {
        assert(order.insert(p, i) =~= order.push(i));
    } else {
        placed_at(order.drop_last(), keys, i, p);
        assert(order.insert(p, i) =~= order.drop_last().insert(p, i).push(order.last()));
    }
}

/// The view of each index of a list.
pub open spec fn indices(v: Seq<usize>) -> Seq<int> {
    v.map_values(|i: usize| i as int)
}

/// The indices of the items with keys `keys`, in the order in which the
/// items are listed.
pub fn rank(keys: &Vec<RankKey>) -> (order: Vec<usize>)
    ensures
        indices(order@) == ranking(sort_keys(keys@)),
        order.len() == keys.len(),
        forall|j: int| 0 <= j < order.len() ==> order@[j] < keys.len(),
{
    let mut order: Vec<usize> = Vec::new();
    let mut i: usize = 0;
    let ghost ks = sort_keys(keys@);
    assert(indices(order@) =~= Seq::empty());
    while i < keys.len()
        invariant
            i <= keys.len(),
            ks == sort_keys(keys@),
            order.len() == i,
            forall|j: int| 0 <= j < order.len() ==> order@[j] < i,
            indices(order@) == ranking_of(ks, i as nat),
        decreases keys.len() - i,
    {
        let mut p: usize = order.len();
        while p > 0 && must_precede(&keys[i], &keys[order[p - 1]])
            invariant
                p <= order.len(),
                order.len() == i,
                i < keys.len(),
                ks == sort_keys(keys@),
                forall|j: int| 0 <= j < order.len() ==> order@[j] < i,
                forall|j: int|
                    p <= j < order.len() ==> precedes(
                        ks[i as int],
                        ks[#[trigger] indices(order@)[j]],
                    ),
            decreases p,
        {
            p = p - 1;
        }
        proof {
            placed_at(indices(order@), ks, i as int, p as int);
        }
        let ghost prior = order@;
        order.insert(p, i);
        assert(indices(order@) =~= indices(prior).insert(p as int, i as int));
        i = i + 1;
    }
    order
}

/// Of two keys at most one must stand before the other.
pub proof fn precedes_is_one_way(a: SortKey, b: SortKey)
    requires
        precedes(a, b),
    ensures
        !precedes(b, a),
{
    if a.late == b.late {
        before_is_one_way(a.name, b.name);
    }
}

/// Where `b` need not stand before `a`, nor `c` before `b`, `c` need not
/// stand before `a`.
pub proof fn not_precedes_chains(a: SortKey, b: SortKey, c: SortKey)
    requires
        !precedes(b, a),
        !precedes(c, b),
    ensures
        !precedes(c, a),
{
    if a.late == b.late && b.late == c.late {
        not_before_chains(a.name, b.name, c.name);
    }
}

/// Whether `r` lists the first `n` items in order: it holds each of their
/// indices once; no item stands behind one that must stand behind it; and
/// of two items of which neither must stand before the other, the one
/// with the smaller index stands first.
pub open spec fn well_ranked(r: Seq<int>, keys: Seq<SortKey>, n: int) -> bool {
    &&& r.len() == n
    &&& forall|j: int| 0 <= j < r.len() ==> 0 <= #[trigger] r[j] < n
    &&& forall|i: int| 0 <= i < n ==> #[trigger] r.contains(i)
    &&& forall|a: int, b: int| 0 <= a < b < r.len() ==> r[a] != r[b]
    &&& forall|a: int, b: int| 0 <= a < b < r.len() ==> !precedes(keys[r[b]], keys[r[a]])
    &&& forall|a: int, b: int|
        0 <= a < b < r.len() && !precedes(keys[r[a]], keys[r[b]]) ==> r[a] < r[b]
}

/// Where `placed` puts the item `i`: behind the last item that need not
/// stand behind it.
pub proof fn placed_position(order: Seq<int>, keys: Seq<SortKey>, i: int) -> (p: int)
    ensures
        0 <= p <= order.len(),
        placed(order, keys, i) == order.insert(p, i),
        forall|j: int| p <= j < order.len() ==> precedes(keys[i], keys[#[trigger] order[j]]),
        p > 0 ==> !precedes(keys[i], keys[order[p - 1]]),
    decreases order.len(),
{
    if order.len() == 0 {
        assert(order.insert(0, i) =~= seq![i]);
        0
    } else if precedes(keys[i], keys[order.last()]) {
        let p = placed_position(order.drop_last(), keys, i);
        assert(order.insert(p, i) =~= order.drop_last().insert(p, i).push(order.last()));
        assert forall|j: int| p <= j < order.len() implies precedes(
            keys[i],
            keys[#[trigger] order[j]],
        ) by {
            if j < order.len() - 1 {
                assert(order.drop_last()[j] == order[j]);
            }
        }
        if p > 0 {
            assert(order.drop_last()[p - 1] == order[p - 1]);
        }
        p
    } else {
        assert(order.insert(order.len() as int, i) =~= order.push(i));
        order.len() as int
    }
}

/// Putting the next item into a well-ranked order leaves it well ranked.
pub proof fn placed_keeps_ranked(order: Seq<int>, keys: Seq<SortKey>, i: int)
    requires
        well_ranked(order, keys, i),
        0 <= i,
    ensures
        well_ranked(placed(order, keys, i), keys, i + 1),
{
    let p = placed_position(order, keys, i);
    let r = order.insert(p, i);
    assert forall|k: int| 0 <= k < i + 1 implies #[trigger] r.contains(k) by {
        if k == i {
            assert(r[p] == i);
        } else {
            assert(order.contains(k));
            let j = choose|j: int| 0 <= j < order.len() && order[j] == k;
            if j < p {
                assert(r[j] == k);
            } else {
                assert(r[j + 1] == k);
            }
        }
    }
    assert forall|a: int, b: int| 0 <= a < b < r.len() implies !precedes(
        keys[r[b]],
        keys[r[a]],
    ) by {
        if b == p {
            assert(r[a] == order[a]);
            if a < p - 1 {
                not_precedes_chains(keys[order[a]], keys[order[p - 1]], keys[i]);
            }
        } else if a == p {
            assert(r[b] == order[b - 1]);
            precedes_is_one_way(keys[i], keys[order[b - 1]]);
        } else {
            let x = if a < p { a } else { a - 1 };
            let y = if b < p { b } else { b - 1 };
            assert(r[a] == order[x] && r[b] == order[y]);
        }
    }
    assert forall|a: int, b: int|
        0 <= a < b < r.len() && !precedes(keys[r[a]], keys[r[b]]) implies r[a] < r[b] by {
        if b == p {
            assert(r[a] == order[a]);
        } else if a == p {
            assert(r[b] == order[b - 1]);
        } else {
            let x = if a < p { a } else { a - 1 };
            let y = if b < p { b } else { b - 1 };
            assert(r[a] == order[x] && r[b] == order[y]);
        }
    }
    assert forall|a: int, b: int| 0 <= a < b < r.len() implies r[a] != r[b] by {
        let x = if a < p { a } else { a - 1 };
        let y = if b < p { b } else { b - 1 };
        if a != p && b != p {
            assert(r[a] == order[x] && r[b] == order[y]);
        } else if a == p {
            assert(r[b] == order[y]);
        } else {
            assert(r[a] == order[x]);
        }
    }
    assert forall|j: int| 0 <= j < r.len() implies 0 <= #[trigger] r[j] < i + 1 by {
        if j < p {
            assert(r[j] == order[j]);
        } else if j > p {
            assert(r[j] == order[j - 1]);
        }
    }
}

/// The order of the first `n` items is well ranked.
pub proof fn ranking_of_is_ranked(keys: Seq<SortKey>, n: nat)
    ensures
        well_ranked(ranking_of(keys, n), keys, n as int),
    decreases n,
{
    if n > 0 {
        ranking_of_is_ranked(keys, (n - 1) as nat);
        placed_keeps_ranked(ranking_of(keys, (n - 1) as nat), keys, n - 1);
    }
}

/// A listing is in order. It holds every item once; an item that must
/// stand before another stands before it; and items with equal keys stand
/// as they stood.
pub proof fn ranking_is_ranked(keys: Seq<SortKey>)
    ensures
        well_ranked(ranking(keys), keys, keys.len() as int),
{
    ranking_of_is_ranked(keys, keys.len());
}

} // verus!
