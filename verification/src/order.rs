//! The order in which a report lists its measurements.
use vstd::prelude::*;
use crate::outside::sorted_by_key_stable;

verus! {

/// `order` lists every position of `keys` once, by ascending key, and among equal
/// keys by ascending position: the order of a stable sort by key.
pub open spec fn is_stable_order(keys: Seq<u64>, order: Seq<usize>) -> bool {
    &&& order.len() == keys.len()
    &&& forall|i: int| 0 <= i < order.len() ==> #[trigger] order[i] < keys.len()
    &&& forall|i: int, j: int|
        0 <= i < j < order.len() ==> #[trigger] order[i] != #[trigger] order[j]
    &&& forall|i: int, j: int|
        #![trigger order[i], order[j]]
        0 <= i < j < order.len() ==> keys[order[i] as int] < keys[order[j] as int] || (
        keys[order[i] as int] == keys[order[j] as int] && order[i] < order[j])
}

/// Position `p` comes before position `q` in the order of a stable sort by key.
pub open spec fn sorts_before(keys: Seq<u64>, p: int, q: int) -> bool {
    keys[p] < keys[q] || (keys[p] == keys[q] && p < q)
}

/// A stable order lists every position of `keys`.
pub proof fn lemma_stable_order_covers(keys: Seq<u64>, order: Seq<usize>, p: int)
    requires
        is_stable_order(keys, order),
        0 <= p < keys.len(),
    ensures
        exists|i: int| 0 <= i < order.len() && order[i] == p,
{
    let n = keys.len() as int;
    let positions = order.map_values(|x: usize| x as int);
    assert(positions.no_duplicates()) by {
        assert forall|i: int, j: int|
            0 <= i < positions.len() && 0 <= j < positions.len() && i != j implies positions[i]
            != positions[j] by {
            if i < j {
                assert(order[i] != order[j]);
            } else {
                assert(order[j] != order[i]);
            }
        }
    }
    positions.unique_seq_to_set();
    vstd::set_lib::lemma_int_range(0, n);
    let range = vstd::set_lib::set_int_range(0, n);
    assert(positions.to_set().subset_of(range)) by {
        assert forall|x: int| positions.to_set().contains(x) implies range.contains(x) by {
            let i = choose|i: int| 0 <= i < positions.len() && positions[i] == x;
            assert(order[i] < keys.len());
        }
    }
    vstd::set_lib::lemma_subset_equality(positions.to_set(), range);
    assert(range.contains(p));
    assert(positions.to_set().contains(p));
    let i = choose|i: int| 0 <= i < positions.len() && positions[i] == p;
    assert(order[i] == p);
}

/// Two stable orders of the same keys agree at position `i` when they agree before it.
proof fn lemma_stable_orders_agree_at(keys: Seq<u64>, a: Seq<usize>, b: Seq<usize>, i: int)
    requires
        is_stable_order(keys, a),
        is_stable_order(keys, b),
        0 <= i < a.len(),
        forall|j: int| 0 <= j < i ==> a[j] == b[j],
    ensures
        a[i] == b[i],
{
    if a[i] != b[i] {
        lemma_stable_order_covers(keys, a, b[i] as int);
        let k = choose|k: int| 0 <= k < a.len() && a[k] == b[i] as int;
        if k < i {
            assert(b[k] == a[k]);
            assert(b[k] != b[i]);
        }
        assert(k != i);
        assert(sorts_before(keys, a[i] as int, a[k] as int));
        lemma_stable_order_covers(keys, b, a[i] as int);
        let m = choose|m: int| 0 <= m < b.len() && b[m] == a[i] as int;
        if m < i {
            assert(a[m] == b[m]);
            assert(a[m] != a[i]);
        }
        assert(m != i);
        assert(sorts_before(keys, b[i] as int, b[m] as int));
    }
}

/// Two stable orders of the same keys agree before position `i`.
proof fn lemma_stable_orders_agree_before(keys: Seq<u64>, a: Seq<usize>, b: Seq<usize>, i: int)
    requires
        is_stable_order(keys, a),
        is_stable_order(keys, b),
        0 <= i <= a.len(),
    ensures
        forall|j: int| 0 <= j < i ==> a[j] == b[j],
    decreases i,
{
    if i > 0 {
        lemma_stable_orders_agree_before(keys, a, b, i - 1);
        lemma_stable_orders_agree_at(keys, a, b, i - 1);
    }
}

/// The order of a stable sort is determined by the keys: any two stable orders
/// of the same keys are the same.
pub proof fn lemma_stable_order_unique(keys: Seq<u64>, a: Seq<usize>, b: Seq<usize>)
    requires
        is_stable_order(keys, a),
        is_stable_order(keys, b),
    ensures
        a == b,
{
    lemma_stable_orders_agree_before(keys, a, b, a.len() as int);
    assert(a =~= b);
}

/// The positions of `keys` in the order of a stable sort by key.
pub fn stable_order(keys: &Vec<u64>) -> (order: Vec<usize>)
    ensures
        is_stable_order(keys@, order@),
{
    let n = keys.len();
    let mut pairs: Vec<(u64, usize)> = Vec::new();
    let mut i: usize = 0;
    while i < n
        invariant
            n == keys.len(),
            i <= n,
            pairs.len() == i,
            forall|k: int| 0 <= k < i ==> pairs[k] == (keys[k], k as usize),
        decreases n - i,
    {
        pairs.push((keys[i], i));
        i = i + 1;
    }
    let sorted = sorted_by_key_stable(pairs);
    let mut order: Vec<usize> = Vec::new();
    let mut j: usize = 0;
    while j < n
        invariant
            n == keys.len(),
            n == sorted.len(),
            j <= n,
            order.len() == j,
            forall|k: int| 0 <= k < j ==> order[k] == sorted[k].1,
        decreases n - j,
    {
        order.push(sorted[j].1);
        j = j + 1;
    }
    assert forall|a: int, b: int| 0 <= a < b < order.len() implies keys[order[a] as int]
        < keys[order[b] as int] || (keys[order[a] as int] == keys[order[b] as int] && order[a]
        < order[b]) by {
        assert(sorted[a] == pairs[sorted[a].1 as int]);
        assert(sorted[b] == pairs[sorted[b].1 as int]);
    }
    assert forall|a: int| 0 <= a < order.len() implies #[trigger] order[a] < keys.len() by {
        assert(sorted[a].1 < n);
    }
    assert forall|a: int, b: int| 0 <= a < b < order.len() implies #[trigger] order[a]
        != #[trigger] order[b] by {
        assert(sorted[a].1 < sorted[b].1 || sorted[a].0 < sorted[b].0);
        assert(sorted[a] == pairs[sorted[a].1 as int]);
        assert(sorted[b] == pairs[sorted[b].1 as int]);
    }
    order
}

} // verus!
