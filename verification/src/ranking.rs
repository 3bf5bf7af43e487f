//! Stable ordering by a key.

use vstd::prelude::*;

verus! {

/// Whether position `a` comes before position `b` where `keys` are put in
/// rising order and equal keys keep their order.
pub open spec fn comes_before(keys: Seq<u128>, a: int, b: int) -> bool {
    keys[a] < keys[b] || (keys[a] == keys[b] && a < b)
}

/// Whether `order` lists the first `n` positions of `keys`, each once, by
/// rising key, positions with equal keys in their own order.
pub open spec fn is_stable_order(keys: Seq<u128>, n: int, order: Seq<usize>) -> bool {
    &&& order.len() == n
    &&& forall|i: int| 0 <= i < order.len() ==> 0 <= #[trigger] order[i] < n
    &&& forall|i: int, j: int|
        0 <= i < j < order.len() ==> comes_before(keys, order[i] as int, order[j] as int)
}

/// No position stands twice in a stable order.
pub proof fn lemma_stable_order_distinct(keys: Seq<u128>, n: int, order: Seq<usize>)
    requires
        is_stable_order(keys, n, order),
    ensures
        forall|i: int, j: int| 0 <= i < j < order.len() ==> order[i] != order[j],
{
    assert forall|i: int, j: int| 0 <= i < j < order.len() implies order[i] != order[j] by {
        assert(comes_before(keys, order[i] as int, order[j] as int));
    }
}

/// The positions of `keys` by rising key; positions with equal keys keep
/// their order.
pub fn stable_order(keys: &Vec<u128>) -> (order: Vec<usize>)
    ensures
        is_stable_order(keys@, keys@.len() as int, order@),
{
    let n: usize = keys.len();
    let mut order: Vec<usize> = Vec::new();
    let mut i: usize = 0;
    while i < n
        invariant
            n == keys@.len(),
            i <= n,
            is_stable_order(keys@, i as int, order@),
        decreases n - i,
    {
        let key: u128 = keys[i];
        let mut p: usize = i;
        while p > 0 && keys[order[p - 1]] > key
            invariant
                n == keys@.len(),
                i < n,
                p <= i,
                key == keys@[i as int],
                is_stable_order(keys@, i as int, order@),
                forall|k: int| p <= k < i ==> keys@[order@[k] as int] > key,
            decreases p,
        {
            p = p - 1;
        }
        let ghost before = order@;
        order.insert(p, i);
        proof {
            let after = order@;
            assert forall|a: int, b: int| 0 <= a < b < after.len() implies comes_before(
                keys@,
                after[a] as int,
                after[b] as int,
            ) by {
                if b < p {
                    assert(after[a] == before[a] && after[b] == before[b]);
                } else if b == p {
                    assert(after[a] == before[a]);
                    assert(keys@[before[p - 1] as int] <= key);
                    if a < p - 1 {
                        assert(comes_before(keys@, before[a] as int, before[p - 1] as int));
                    }
                } else if a < p {
                    assert(after[a] == before[a] && after[b] == before[b - 1]);
                    if a < b - 1 {
                        assert(comes_before(keys@, before[a] as int, before[b - 1] as int));
                    }
                } else if a == p {
                    assert(after[b] == before[b - 1]);
                } else {
                    assert(after[a] == before[a - 1] && after[b] == before[b - 1]);
                }
            }
            assert forall|k: int| 0 <= k < after.len() implies 0 <= #[trigger] after[k] < i + 1 by {
                if k < p {
                    assert(after[k] == before[k]);
                } else if k > p {
                    assert(after[k] == before[k - 1]);
                }
            }
        }
        i = i + 1;
    }
    order
}

} // verus!
