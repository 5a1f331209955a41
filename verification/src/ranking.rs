//! Picking the lowest few of a list of keys, in order.

use vstd::prelude::*;
use vstd::set_lib::{lemma_int_range, lemma_len_subset, set_int_range};

verus! {

/// Whether place `a` ranks before place `b`: the lower key first, and of two
/// equal keys the one that stands first.
pub open spec fn ranks_before(keys: Seq<i128>, a: int, b: int) -> bool {
    keys[a] < keys[b] || (keys[a] == keys[b] && a < b)
}

/// Whether `order` lists the places of the `k` lowest keys, or of all if
/// there are fewer, lowest first.
pub open spec fn is_lowest_order(keys: Seq<i128>, k: int, order: Seq<int>) -> bool {
    &&& order.len() == if k <= keys.len() {
        k
    } else {
        keys.len() as int
    }
    &&& forall|i: int| 0 <= i < order.len() ==> 0 <= #[trigger] order[i] < keys.len()
    &&& forall|i: int, j: int|
        0 <= i < j < order.len() ==> ranks_before(keys, #[trigger] order[i], #[trigger] order[j])
    &&& forall|e: int, i: int|
        0 <= e < keys.len() && !#[trigger] order.contains(e) && 0 <= i < order.len()
            ==> ranks_before(keys, #[trigger] order[i], e)
}

/// The places that a list of indices holds, as numbers.
pub open spec fn places(order: Seq<usize>) -> Seq<int> {
    Seq::new(order.len(), |i: int| order[i] as int)
}

/// A list of fewer than `n` numbers leaves one of `0 .. n` out.
pub proof fn lemma_some_index_missing(order: Seq<int>, n: int)
    requires
        order.len() < n,
    ensures
        exists|e: int| 0 <= e < n && !order.contains(e),
{
    if forall|e: int| 0 <= e < n ==> order.contains(e) {
        broadcast use vstd::seq_lib::seq_to_set_is_finite;

        lemma_int_range(0, n);
        order.lemma_cardinality_of_set();
        assert(set_int_range(0, n).subset_of(order.to_set())) by {
            assert forall|e: int| set_int_range(0, n).contains(e) implies order.to_set().contains(
                e,
            ) by {
                assert(order.contains(e));
            }
        }
        lemma_len_subset(set_int_range(0, n), order.to_set());
    }
}

/// At most one list is the order of the `k` lowest keys.
pub proof fn lemma_lowest_order_unique(keys: Seq<i128>, k: int, a: Seq<int>, b: Seq<int>)
    requires
        is_lowest_order(keys, k, a),
        is_lowest_order(keys, k, b),
    ensures
        a == b,
{
    assert forall|i: int| 0 <= i < a.len() implies a[i] == b[i] by {
        lemma_orders_agree(keys, k, a, b, i);
    }
    assert(a =~= b);
}

/// Two orders of the `k` lowest keys agree in every place.
proof fn lemma_orders_agree(keys: Seq<i128>, k: int, a: Seq<int>, b: Seq<int>, i: int)
    requires
        is_lowest_order(keys, k, a),
        is_lowest_order(keys, k, b),
        0 <= i < a.len(),
    ensures
        a[i] == b[i],
    decreases i,
{
    if i > 0 {
        lemma_orders_agree(keys, k, a, b, i - 1);
    }
    // Every place below `i` agrees, by induction on the places below.

    assert forall|j: int| 0 <= j < i implies a[j] == b[j] by {
        lemma_orders_agree(keys, k, a, b, j);
    }
    if a[i] != b[i] {
        // `a[i]` cannot stand in `b` below `i`, so it stands above or not at all.
        if b.contains(a[i]) {
            let x = choose|x: int| 0 <= x < b.len() && b[x] == a[i];
            if x < i {
                assert(a[x] == b[x]);
                assert(ranks_before(keys, a[x], a[i]));
            } else {
                assert(x > i);
                assert(ranks_before(keys, b[i], b[x]));
            }
        } else {
            assert(ranks_before(keys, b[i], a[i]));
        }
        if a.contains(b[i]) {
            let y = choose|y: int| 0 <= y < a.len() && a[y] == b[i];
            if y < i {
                assert(a[y] == b[y]);
                assert(ranks_before(keys, b[y], b[i]));
            } else {
                assert(y > i);
                assert(ranks_before(keys, a[i], a[y]));
            }
        } else {
            assert(ranks_before(keys, a[i], b[i]));
        }
    }
}

/// The places of the `k` lowest keys, lowest first; of all keys if there are
/// fewer than `k`.
pub fn k_lowest(keys: &Vec<i128>, k: usize) -> (order: Vec<usize>)
    ensures
        is_lowest_order(keys@, k as int, places(order@)),
{
    let n: usize = keys.len();
    let m: usize = if k <= n { k } else { n };
    let mut result: Vec<usize> = Vec::new();
    let ghost mut order: Seq<int> = Seq::empty();
    let mut last_key: i128 = 0;
    let mut last_i: usize = 0;
    let mut i: usize = 0;
    while i < m
        invariant
            i <= m <= n,
            n == keys.len(),
            order.len() == i,
            order =~= places(result@),
            forall|a: int| 0 <= a < i ==> 0 <= #[trigger] order[a] < n,
            forall|a: int, b: int|
                0 <= a < b < i ==> ranks_before(keys@, #[trigger] order[a], #[trigger] order[b]),
            forall|e: int, a: int|
                0 <= e < n && !#[trigger] order.contains(e) && 0 <= a < i ==> ranks_before(
                    keys@,
                    #[trigger] order[a],
                    e,
                ),
            i > 0 ==> last_i == order[i - 1] && last_key == keys@[order[i - 1]],
        decreases m - i,
    {
        let mut found: bool = false;
        let mut best: usize = 0;
        let mut best_key: i128 = 0;
        let mut j: usize = 0;
        while j < n
            invariant
                j <= n,
                n == keys.len(),
                i > 0 ==> last_i < n && last_key == keys@[last_i as int],
                found ==> {
                    &&& best < j
                    &&& best_key == keys@[best as int]
                    &&& i > 0 ==> ranks_before(keys@, last_i as int, best as int)
                    &&& forall|e: int|
                        #![trigger keys@[e]]
                        0 <= e < j && (i > 0 ==> ranks_before(keys@, last_i as int, e))
                            ==> !ranks_before(keys@, e, best as int)
                },
                !found ==> forall|e: int|
                    #![trigger keys@[e]]
                    0 <= e < j ==> i > 0 && !ranks_before(keys@, last_i as int, e),
            decreases n - j,
        {
            let key: i128 = keys[j];
            let after_last: bool = i == 0 || last_key < key || (last_key == key && last_i < j);
            if after_last && (!found || key < best_key) {
                found = true;
                best = j;
                best_key = key;
            }
            j += 1;
        }
        proof {
            lemma_some_index_missing(order, n as int);
            let missing = choose|e: int| 0 <= e < n && !order.contains(e);
            if i > 0 {
                assert(ranks_before(keys@, order[i - 1], missing));
            }
            if !found {
                let key_of_missing = keys@[missing];
                assert(i > 0 && !ranks_before(keys@, last_i as int, missing));
            }
            assert(found);
            if order.contains(best as int) {
                let a = choose|a: int| 0 <= a < order.len() && order[a] == best as int;
                if a < i - 1 {
                    assert(ranks_before(keys@, order[a], order[i - 1]));
                }
            }
            assert(!order.contains(best as int));
        }
        let ghost old_order = order;
        result.push(best);
        proof {
            order = order.push(best as int);
            assert(order =~= places(result@));
            assert forall|e: int, a: int|
                0 <= e < n && !#[trigger] order.contains(e) && 0 <= a < i + 1 implies ranks_before(
                keys@,
                #[trigger] order[a],
                e,
            ) by {
                assert(!old_order.contains(e)) by {
                    if old_order.contains(e) {
                        let x = choose|x: int| 0 <= x < old_order.len() && old_order[x] == e;
                        assert(order[x] == e);
                    }
                }
                assert(order[i as int] == best as int);
                assert(e != best as int);
                let key_of_entry = keys@[e];
                if a < i {
                    assert(order[a] == old_order[a]);
                } else {
                    if i > 0 {
                        assert(ranks_before(keys@, old_order[i - 1], e));
                    }
                }
            }
            assert forall|a: int, b: int| 0 <= a < b < i + 1 implies ranks_before(
                keys@,
                #[trigger] order[a],
                #[trigger] order[b],
            ) by {
                if b < i {
                    assert(order[a] == old_order[a] && order[b] == old_order[b]);
                } else {
                    assert(order[a] == old_order[a]);
                }
            }
        }
        last_key = best_key;
        last_i = best;
        i += 1;
    }
    proof {
        assert(is_lowest_order(keys@, k as int, order));
    }
    result
}

} // verus!
