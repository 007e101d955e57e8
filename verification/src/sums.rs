//! Sums over finite maps.

use vstd::prelude::*;

verus! {

/// The sum of what `f` makes of the values of a finite map.
pub open spec fn total<K, V>(m: Map<K, V>, f: spec_fn(V) -> int) -> int
    decreases m.dom().len(),
{
    if m.dom().finite() && m.dom().len() > 0 {
        let k = m.dom().choose();
        f(m[k]) + total(m.remove(k), f)
    } else {
        0
    }
}

/// The sum splits at any key.
pub proof fn lemma_total_split<K, V>(m: Map<K, V>, f: spec_fn(V) -> int, k: K)
    requires
        m.dom().finite(),
        m.contains_key(k),
    ensures
        total(m, f) == f(m[k]) + total(m.remove(k), f),
    decreases m.dom().len(),
{
    let c = m.dom().choose();
    if c != k {
        lemma_total_split(m.remove(c), f, k);
        lemma_total_split(m.remove(k), f, c);
        assert(m.remove(c).remove(k) =~= m.remove(k).remove(c));
    }
}

/// Setting one value changes the sum by the difference at that key.
pub proof fn lemma_total_insert<K, V>(m: Map<K, V>, f: spec_fn(V) -> int, k: K, v: V)
    requires
        m.dom().finite(),
    ensures
        m.insert(k, v).dom().finite(),
        total(m.insert(k, v), f) == total(m, f) + f(v) - (if m.contains_key(k) {
            f(m[k])
        } else {
            0
        }),
{
    lemma_total_split(m.insert(k, v), f, k);
    if m.contains_key(k) {
        lemma_total_split(m, f, k);
        assert(m.insert(k, v).remove(k) =~= m.remove(k));
    } else {
        assert(m.insert(k, v).remove(k) =~= m);
    }
}

/// No value exceeds a sum of values that are not negative, nor do two together.
pub proof fn lemma_total_bounds<K, V>(m: Map<K, V>, f: spec_fn(V) -> int)
    requires
        m.dom().finite(),
        forall|k: K| #[trigger] m.contains_key(k) ==> f(m[k]) >= 0,
    ensures
        total(m, f) >= 0,
        forall|k: K| #[trigger] m.contains_key(k) ==> f(m[k]) <= total(m, f),
        forall|j: K, k: K|
            #![trigger m.contains_key(j), m.contains_key(k)]
            m.contains_key(j) && m.contains_key(k) && j != k ==> f(m[j]) + f(m[k]) <= total(m, f),
    decreases m.dom().len(),
{
    if m.dom().len() > 0 {
        let c = m.dom().choose();
        let r = m.remove(c);
        assert forall|k: K| #[trigger] r.contains_key(k) implies f(r[k]) >= 0 by {
            assert(m.contains_key(k));
        }
        lemma_total_bounds(r, f);
        assert forall|k: K| #[trigger] m.contains_key(k) implies f(m[k]) <= total(m, f) by {
            if k != c {
                assert(r.contains_key(k));
            }
        }
        assert forall|j: K, k: K|
            #![trigger m.contains_key(j), m.contains_key(k)]
            m.contains_key(j) && m.contains_key(k) && j != k implies f(m[j]) + f(m[k])
            <= total(m, f) by {
            if j != c {
                assert(r.contains_key(j));
            }
            if k != c {
                assert(r.contains_key(k));
            }
        }
    } else {
        assert(m.dom() =~= Set::empty());
    }
}

} // verus!
