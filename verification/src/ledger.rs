//! The total of the balances in a finite map of accounts.

use vstd::prelude::*;

verus! {

/// The sum of the values of a finite map.
pub open spec fn map_sum(m: Map<u64, u128>) -> int
    decreases m.dom().len(),
    when m.dom().finite()
{
    if m.dom().len() == 0 {
        0
    } else {
        let k = m.dom().choose();
        m[k] + map_sum(m.remove(k))
    }
}

/// Removing any key takes exactly its value off the sum.
pub proof fn lemma_map_sum_remove(m: Map<u64, u128>, k: u64)
    requires
        m.dom().finite(),
        m.contains_key(k),
    ensures
        map_sum(m) == m[k] + map_sum(m.remove(k)),
    decreases m.dom().len(),
{
    let c = m.dom().choose();
    assert(m.dom().contains(c));
    if c != k {
        lemma_map_sum_remove(m.remove(c), k);
        lemma_map_sum_remove(m.remove(k), c);
        assert(m.remove(c).remove(k) =~= m.remove(k).remove(c));
    }
}

/// The sum is never negative, and no single value exceeds it.
pub proof fn lemma_map_sum_bounds(m: Map<u64, u128>, k: u64)
    requires
        m.dom().finite(),
    ensures
        map_sum(m) >= 0,
        m.contains_key(k) ==> m[k] <= map_sum(m),
    decreases m.dom().len(),
{
    if m.dom().len() != 0 {
        let c = m.dom().choose();
        assert(m.dom().contains(c));
        lemma_map_sum_bounds(m.remove(c), k);
        if m.contains_key(k) {
            lemma_map_sum_remove(m, k);
            lemma_map_sum_bounds(m.remove(k), k);
        }
    }
}

/// Setting the value of `k` to `v` changes the sum by the difference.
pub proof fn lemma_map_sum_insert(m: Map<u64, u128>, k: u64, v: u128)
    requires
        m.dom().finite(),
    ensures
        map_sum(m.insert(k, v)) == map_sum(m) - (if m.contains_key(k) { m[k] as int } else { 0 }) + v,
{
    let n = m.insert(k, v);
    lemma_map_sum_remove(n, k);
    assert(n.remove(k) =~= m.remove(k));
    if m.contains_key(k) {
        lemma_map_sum_remove(m, k);
    } else {
        assert(m.remove(k) =~= m);
    }
}


/// The values of two different keys together do not exceed the sum.
pub proof fn lemma_map_sum_two(m: Map<u64, u128>, a: u64, b: u64)
    requires
        m.dom().finite(),
        a != b,
    ensures
        (if m.contains_key(a) { m[a] as int } else { 0 }) + (if m.contains_key(b) { m[b] as int } else { 0 }) <= map_sum(m),
{
    lemma_map_sum_bounds(m, a);
    lemma_map_sum_bounds(m, b);
    if m.contains_key(a) {
        lemma_map_sum_remove(m, a);
        lemma_map_sum_bounds(m.remove(a), b);
    }
}

} // verus!
