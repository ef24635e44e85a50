//! Sums over the entries of a finite map.
use vstd::prelude::*;

verus! {

/// The sum of `f(m[k])` over the keys `k` of the finite set `keys`.
pub open spec fn sum_over<K, V>(m: Map<K, V>, f: spec_fn(V) -> int, keys: Set<K>) -> int
    decreases keys.len(),
    when keys.finite()
{
    if keys.len() == 0 {
        0
    } else {
        let k = keys.choose();
        proof {
            assert(keys.contains(k));
        }
        f(m[k]) + sum_over(m, f, keys.remove(k))
    }
}

/// The sum of `f` over all entries of `m`.
pub open spec fn map_sum<K, V>(m: Map<K, V>, f: spec_fn(V) -> int) -> int {
    sum_over(m, f, m.dom())
}

/// Any key of the set can be taken out of the sum first.
pub proof fn lemma_sum_remove<K, V>(m: Map<K, V>, f: spec_fn(V) -> int, keys: Set<K>, a: K)
    requires
        keys.finite(),
        keys.contains(a),
    ensures
        sum_over(m, f, keys) == f(m[a]) + sum_over(m, f, keys.remove(a)),
    decreases keys.len(),
{
    let k = keys.choose();
    assert(keys.contains(k));
    if k != a {
        lemma_sum_remove(m, f, keys.remove(k), a);
        lemma_sum_remove(m, f, keys.remove(a), k);
        assert(keys.remove(k).remove(a) =~= keys.remove(a).remove(k));
    }
}

/// Maps that agree, through `f`, on every key of the set have the same sum
/// over it.
pub proof fn lemma_sum_agree<K, V>(m1: Map<K, V>, m2: Map<K, V>, f: spec_fn(V) -> int, keys: Set<K>)
    requires
        keys.finite(),
        forall|k: K| keys.contains(k) ==> f(m1[k]) == f(m2[k]),
    ensures
        sum_over(m1, f, keys) == sum_over(m2, f, keys),
    decreases keys.len(),
{
    if keys.len() > 0 {
        let k = keys.choose();
        assert(keys.contains(k));
        lemma_sum_agree(m1, m2, f, keys.remove(k));
    }
}

/// Storing `v` under `a` changes the sum over the map's entries by the
/// difference, whether `a` had an entry or not.
pub proof fn lemma_map_sum_insert<K, V>(m: Map<K, V>, f: spec_fn(V) -> int, a: K, v: V)
    requires
        m.dom().finite(),
    ensures
        m.insert(a, v).dom().finite(),
        map_sum(m.insert(a, v), f) == map_sum(m, f) + f(v) - if m.contains_key(a) {
            f(m[a])
        } else {
            0
        },
{
    let n = m.insert(a, v);
    assert(n.dom() =~= m.dom().insert(a));
    lemma_sum_remove(n, f, n.dom(), a);
    assert forall|k: K| m.dom().remove(a).contains(k) implies f(n[k]) == f(m[k]) by {}
    lemma_sum_agree(n, m, f, m.dom().remove(a));
    if m.contains_key(a) {
        lemma_sum_remove(m, f, m.dom(), a);
        assert(n.dom().remove(a) =~= m.dom().remove(a));
    } else {
        assert(n.dom().remove(a) =~= m.dom());
        assert(m.dom().remove(a) =~= m.dom());
    }
}

/// A sum of values that are not negative is not negative, and at least
/// each of its terms.
pub proof fn lemma_sum_bounds<K, V>(m: Map<K, V>, f: spec_fn(V) -> int, keys: Set<K>)
    requires
        keys.finite(),
        forall|k: K| keys.contains(k) ==> f(m[k]) >= 0,
    ensures
        sum_over(m, f, keys) >= 0,
        forall|a: K| keys.contains(a) ==> sum_over(m, f, keys) >= f(m[a]),
    decreases keys.len(),
{
    if keys.len() > 0 {
        let k = keys.choose();
        assert(keys.contains(k));
        lemma_sum_bounds(m, f, keys.remove(k));
        assert forall|a: K| keys.contains(a) implies sum_over(m, f, keys) >= f(m[a]) by {
            if a != k {
                assert(keys.remove(k).contains(a));
            }
        }
    }
}

} // verus!
