//! The spatial index: where every sheep stood when the index was last
//! rebuilt, and the queries for the sheep nearest to a point.

use crate::sheep::{NearestSheep, Sheep};
use crate::ranking::{k_lowest, places, ranks_before};
use crate::vector::{lemma_square_bound, Vec3};
use vstd::prelude::*;

verus! {

/// The time between two rebuilds of the index, in milliseconds.
pub const REBUILD_INTERVAL: u32 = 250;

/// How many sheep at most have their nearest sheep looked up in one round.
pub const MAX_REFRESH_PER_ROUND: usize = 100;

/// How many nearest sheep are looked up for each sheep, itself included.
pub const NEIGHBOUR_COUNT: usize = 7;

/// The positions and ids of the sheep as of the last rebuild, and the time
/// since then in milliseconds.
#[derive(Clone, Debug)]
pub struct SpatialIndex {
    pub entries: Vec<(Vec3, u64)>,
    pub age: u32,
}

/// The squared distance from `p` to entry `e`.
pub open spec fn dist_to(entries: Seq<(Vec3, u64)>, p: Vec3, e: int) -> int {
    entries[e].0.dist_sq(p)
}

/// Whether entry `a` is reported before entry `b`: the nearer to `p` first,
/// and of two equally near the one that was entered first.
pub open spec fn comes_before(entries: Seq<(Vec3, u64)>, p: Vec3, a: int, b: int) -> bool {
    dist_to(entries, p, a) < dist_to(entries, p, b) || (dist_to(entries, p, a) == dist_to(
        entries,
        p,
        b,
    ) && a < b)
}

/// Whether `order` lists the `k` entries nearest to `p`, or all if there are
/// fewer, in the order in which they are reported.
pub open spec fn is_nearest_order(
    entries: Seq<(Vec3, u64)>,
    p: Vec3,
    k: int,
    order: Seq<int>,
) -> bool {
    &&& order.len() == if k <= entries.len() {
        k
    } else {
        entries.len() as int
    }
    &&& forall|i: int| 0 <= i < order.len() ==> 0 <= #[trigger] order[i] < entries.len()
    &&& forall|i: int, j: int|
        0 <= i < j < order.len() ==> comes_before(entries, p, #[trigger] order[i], #[trigger] order[j])
    &&& forall|e: int, i: int|
        0 <= e < entries.len() && !#[trigger] order.contains(e) && 0 <= i < order.len()
            ==> comes_before(entries, p, #[trigger] order[i], e)
}

/// Whether `result` reports the entries that `order` lists: the position and
/// the id of each.
pub open spec fn reports(
    entries: Seq<(Vec3, u64)>,
    order: Seq<int>,
    result: Seq<(Vec3, Option<u64>)>,
) -> bool {
    &&& result.len() == order.len()
    &&& forall|i: int|
        0 <= i < order.len() ==> #[trigger] result[i] == (
            entries[order[i]].0,
            Some(entries[order[i]].1),
        )
}

/// Whether `result` is the answer to a query for the `k` entries nearest to
/// `p`.
pub open spec fn k_nearest_of(
    entries: Seq<(Vec3, u64)>,
    p: Vec3,
    k: int,
    result: Seq<(Vec3, Option<u64>)>,
) -> bool {
    exists|order: Seq<int>|
        is_nearest_order(entries, p, k, order) && #[trigger] reports(entries, order, result)
}

/// Only two points in the same place are at distance zero.
pub proof fn lemma_zero_distance(a: Vec3, b: Vec3)
    requires
        a.dist_sq(b) <= 0,
    ensures
        a == b,
{
    let dx = a.x - b.x;
    let dy = a.y - b.y;
    let dz = a.z - b.z;
    assert(dx * dx >= 0 && dy * dy >= 0 && dz * dz >= 0) by (nonlinear_arith);
    assert(dx != 0 ==> dx * dx > 0) by (nonlinear_arith);
    assert(dy != 0 ==> dy * dy > 0) by (nonlinear_arith);
    assert(dz != 0 ==> dz * dz > 0) by (nonlinear_arith);
}

/// A query at a point where a sheep was entered reports that point first.
pub proof fn lemma_exact_match_comes_first(
    entries: Seq<(Vec3, u64)>,
    p: Vec3,
    k: int,
    result: Seq<(Vec3, Option<u64>)>,
    e: int,
)
    requires
        k >= 1,
        0 <= e < entries.len(),
        entries[e].0 == p,
        k_nearest_of(entries, p, k, result),
    ensures
        result.len() >= 1,
        result[0].0 == p,
{
    let order = choose|order: Seq<int>|
        is_nearest_order(entries, p, k, order) && #[trigger] reports(entries, order, result);
    assert(dist_to(entries, p, e) == 0) by (nonlinear_arith)
        requires
            dist_to(entries, p, e) == (p.x - p.x) * (p.x - p.x) + (p.y - p.y) * (p.y - p.y) + (p.z
                - p.z) * (p.z - p.z),
    ;
    let first = order[0];
    assert(dist_to(entries, p, first) <= 0) by {
        if order.contains(e) {
            let i = choose|i: int| 0 <= i < order.len() && order[i] == e;
            if i > 0 {
                assert(comes_before(entries, p, order[0], order[i]));
            }
        } else {
            assert(comes_before(entries, p, order[0], e));
        }
    }
    lemma_zero_distance(entries[first].0, p);
    assert(result[0] == (entries[order[0]].0, Some(entries[order[0]].1)));
}

impl SpatialIndex {
    /// An index without entries.
    pub fn new() -> (index: SpatialIndex)
        ensures
            index.entries@.len() == 0,
            index.age == 0,
    {
        SpatialIndex { entries: Vec::new(), age: 0 }
    }

    /// Enters all sheep anew, each where it stands now.
    pub fn rebuild(&mut self, sheep: &Vec<Sheep>)
        ensures
            final(self).age == 0,
            final(self).entries@.len() == sheep.len(),
            forall|i: int|
                0 <= i < sheep.len() ==> #[trigger] final(self).entries@[i] == (
                    sheep[i].translation,
                    sheep[i].id,
                ),
    {
        let mut entries: Vec<(Vec3, u64)> = Vec::new();
        let mut i: usize = 0;
        while i < sheep.len()
            invariant
                i <= sheep.len(),
                entries@.len() == i,
                forall|j: int|
                    0 <= j < i ==> #[trigger] entries@[j] == (sheep[j].translation, sheep[j].id),
            decreases sheep.len() - i,
        {
            entries.push((sheep[i].translation, sheep[i].id));
            i += 1;
        }
        self.entries = entries;
        self.age = 0;
    }

    /// Lets `dt` milliseconds pass, and rebuilds the index once
    /// `REBUILD_INTERVAL` has passed since the last rebuild. Between
    /// rebuilds the index keeps reporting the sheep where they stood.
    pub fn refresh(&mut self, sheep: &Vec<Sheep>, dt: u32) -> (rebuilt: bool)
        ensures
            rebuilt == (old(self).age + dt >= REBUILD_INTERVAL),
            rebuilt ==> {
                &&& final(self).age == 0
                &&& final(self).entries@.len() == sheep.len()
                &&& forall|i: int|
                    0 <= i < sheep.len() ==> #[trigger] final(self).entries@[i] == (
                        sheep[i].translation,
                        sheep[i].id,
                    )
            },
            !rebuilt ==> final(self).entries == old(self).entries && final(self).age == old(
                self,
            ).age + dt,
    {
        if self.age as u64 + dt as u64 >= REBUILD_INTERVAL as u64 {
            self.rebuild(sheep);
            true
        } else {
            self.age = self.age + dt;
            false
        }
    }

    /// The `k` entries nearest to `loc`, nearest first; all entries if there
    /// are fewer than `k`.
    pub fn k_nearest_neighbour(&self, loc: Vec3, k: usize) -> (result: Vec<(Vec3, Option<u64>)>)
        ensures
            k_nearest_of(self.entries@, loc, k as int, result@),
    {
        let ghost entries = self.entries@;
        let mut keys: Vec<i128> = Vec::new();
        let mut i: usize = 0;
        while i < self.entries.len()
            invariant
                i <= self.entries.len(),
                entries == self.entries@,
                keys@.len() == i,
                forall|j: int| 0 <= j < i ==> #[trigger] keys@[j] == dist_to(entries, loc, j),
            decreases self.entries.len() - i,
        {
            let d: u128 = self.entries[i].0.distance_squared(loc);
            proof {
                lemma_square_bound((entries[i as int].0.x - loc.x) as int, 0x1_0000_0000);
                lemma_square_bound((entries[i as int].0.y - loc.y) as int, 0x1_0000_0000);
                lemma_square_bound((entries[i as int].0.z - loc.z) as int, 0x1_0000_0000);
            }
            keys.push(d as i128);
            i += 1;
        }
        let order: Vec<usize> = k_lowest(&keys, k);
        let ghost listed = places(order@);
        proof {
            assert forall|a: int, b: int|
                0 <= a < entries.len() && 0 <= b < entries.len() implies comes_before(
                entries,
                loc,
                a,
                b,
            ) == #[trigger] ranks_before(keys@, a, b) by {
                assert(keys@[a] == dist_to(entries, loc, a));
                assert(keys@[b] == dist_to(entries, loc, b));
            }
            assert(is_nearest_order(entries, loc, k as int, listed)) by {
                assert forall|i: int, j: int| 0 <= i < j < listed.len() implies comes_before(
                    entries,
                    loc,
                    #[trigger] listed[i],
                    #[trigger] listed[j],
                ) by {
                    assert(ranks_before(keys@, listed[i], listed[j]));
                }
                assert forall|e: int, i: int|
                    0 <= e < entries.len() && !#[trigger] listed.contains(e) && 0 <= i
                        < listed.len() implies comes_before(entries, loc, #[trigger] listed[i], e) by {
                    assert(ranks_before(keys@, listed[i], e));
                }
            }
        }
        let mut result: Vec<(Vec3, Option<u64>)> = Vec::new();
        let mut r: usize = 0;
        while r < order.len()
            invariant
                r <= order.len(),
                entries == self.entries@,
                listed == places(order@),
                forall|i: int| 0 <= i < listed.len() ==> 0 <= #[trigger] listed[i] < entries.len(),
                result@.len() == r,
                forall|i: int|
                    0 <= i < r ==> #[trigger] result@[i] == (
                        entries[listed[i]].0,
                        Some(entries[listed[i]].1),
                    ),
            decreases order.len() - r,
        {
            let e: usize = order[r];
            assert(listed[r as int] == e);
            result.push((self.entries[e].0, Some(self.entries[e].1)));
            r += 1;
        }
        proof {
            assert(reports(entries, listed, result@));
        }
        result
    }
}

/// How many of the first `n` sheep still wait for their nearest sheep to be
/// looked up in the current cycle.
pub open spec fn waiting_before(sheep: Seq<Sheep>, n: int) -> int
    decreases n,
{
    if n <= 0 {
        0
    } else {
        waiting_before(sheep, n - 1) + if sheep[n - 1].updated {
            0int
        } else {
            1int
        }
    }
}

/// The count of waiting sheep is not negative, and where it is zero none of
/// the sheep counted waits.
pub proof fn lemma_none_waiting(sheep: Seq<Sheep>, n: int)
    requires
        0 <= n <= sheep.len(),
    ensures
        waiting_before(sheep, n) >= 0,
        waiting_before(sheep, n) == 0 ==> forall|j: int| 0 <= j < n ==> (#[trigger] sheep[j]).updated,
    decreases n,
{
    if n > 0 {
        lemma_none_waiting(sheep, n - 1);
    }
}

/// Whether `after` is `before` with its nearest sheep looked up in the index
/// and marked as done.
pub open spec fn looked_up(before: Sheep, after: Sheep, entries: Seq<(Vec3, u64)>) -> bool {
    &&& after == (Sheep { updated: true, nearest: after.nearest, ..before })
    &&& k_nearest_of(entries, before.translation, NEIGHBOUR_COUNT as int, after.nearest.0@)
}

/// Looks up the nearest sheep for the first `MAX_REFRESH_PER_ROUND` sheep
/// that still wait for it, and marks them as done. Once no sheep waits any
/// more, the cycle starts over: all marks are cleared, and nothing is looked
/// up in that round.
pub fn update_nearest(sheep: &mut Vec<Sheep>, field: &SpatialIndex)
    ensures
        final(sheep).len() == old(sheep).len(),
        waiting_before(old(sheep)@, old(sheep).len() as int) == 0 ==> forall|i: int|
            0 <= i < old(sheep).len() ==> #[trigger] final(sheep)[i] == (Sheep {
                updated: false,
                ..old(sheep)[i]
            }),
        waiting_before(old(sheep)@, old(sheep).len() as int) > 0 ==> forall|i: int|
            0 <= i < old(sheep).len() ==> if !old(sheep)[i].updated && waiting_before(
                old(sheep)@,
                i,
            ) < MAX_REFRESH_PER_ROUND {
                looked_up(old(sheep)[i], #[trigger] final(sheep)[i], field.entries@)
            } else {
                final(sheep)[i] == old(sheep)[i]
            },
{
    let mut seen: usize = 0;
    let mut i: usize = 0;
    while i < sheep.len()
        invariant
            i <= sheep.len(),
            sheep.len() == old(sheep).len(),
            seen <= i,
            seen == waiting_before(old(sheep)@, i as int),
            forall|j: int|
                0 <= j < i ==> if !old(sheep)[j].updated && waiting_before(old(sheep)@, j)
                    < MAX_REFRESH_PER_ROUND {
                    looked_up(old(sheep)[j], #[trigger] sheep[j], field.entries@)
                } else {
                    sheep[j] == old(sheep)[j]
                },
            forall|j: int| i <= j < sheep.len() ==> sheep[j] == old(sheep)[j],
        decreases sheep.len() - i,
    {
        if !sheep[i].updated {
            if seen < MAX_REFRESH_PER_ROUND {
                let found = field.k_nearest_neighbour(sheep[i].translation, NEIGHBOUR_COUNT);
                sheep[i].nearest = NearestSheep(found);
                sheep[i].updated = true;
            }
            seen += 1;
        }
        i += 1;
    }
    if seen == 0 {
        proof {
            lemma_none_waiting(old(sheep)@, old(sheep).len() as int);
        }
        let mut j: usize = 0;
        while j < sheep.len()
            invariant
                j <= sheep.len(),
                sheep.len() == old(sheep).len(),
                forall|a: int|
                    0 <= a < j ==> #[trigger] sheep[a] == (Sheep {
                        updated: false,
                        ..old(sheep)[a]
                    }),
                forall|a: int| j <= a < sheep.len() ==> sheep[a] == old(sheep)[a],
            decreases sheep.len() - j,
        {
            sheep[j].updated = false;
            j += 1;
        }
    }
}

} // verus!
