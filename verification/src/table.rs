//! A finite map from small keys to values, kept as a list of pairs.

use crate::env::Address;
use vstd::prelude::*;

verus! {

/// A key that can be compared for equality.
pub trait Key: Sized {
    fn same(&self, other: &Self) -> (r: bool)
        ensures
            r == (*self == *other),
    ;
}

impl Key for u32 {
    fn same(&self, other: &Self) -> (r: bool) {
        *self == *other
    }
}

impl Key for u64 {
    fn same(&self, other: &Self) -> (r: bool) {
        *self == *other
    }
}

impl Key for Address {
    fn same(&self, other: &Self) -> (r: bool) {
        *self == *other
    }
}

impl<A: Key, B: Key> Key for (A, B) {
    fn same(&self, other: &Self) -> (r: bool) {
        self.0.same(&other.0) && self.1.same(&other.1)
    }
}

/// No key occurs twice in a list of pairs.
spec fn distinct_keys<K, V>(s: Seq<(K, V)>) -> bool {
    forall|i: int, j: int|
        0 <= i < j < s.len() ==> (#[trigger] s[i]).0 != (#[trigger] s[j]).0
}

/// The map that a list of pairs stands for.
spec fn pairs_to_map<K, V>(s: Seq<(K, V)>) -> Map<K, V>
    decreases s.len(),
{
    if s.len() == 0 {
        Map::empty()
    } else {
        pairs_to_map(s.drop_last()).insert(s.last().0, s.last().1)
    }
}

proof fn lemma_pairs_to_map<K, V>(s: Seq<(K, V)>)
    requires
        distinct_keys(s),
    ensures
        pairs_to_map(s).dom().finite(),
        forall|i: int|
            0 <= i < s.len() ==> pairs_to_map(s).contains_pair((#[trigger] s[i]).0, s[i].1),
        forall|k: K| #[trigger]
            pairs_to_map(s).dom().contains(k) ==> exists|i: int|
                0 <= i < s.len() && (#[trigger] s[i]).0 == k,
    decreases s.len(),
{
    if s.len() > 0 {
        let t = s.drop_last();
        assert(forall|i: int| 0 <= i < t.len() ==> #[trigger] t[i] == s[i]);
        lemma_pairs_to_map(t);
        assert forall|k: K| #[trigger] pairs_to_map(s).dom().contains(k) implies exists|i: int|
            0 <= i < s.len() && (#[trigger] s[i]).0 == k by {
            if k == s.last().0 {
                assert(s[s.len() - 1].0 == k);
            } else {
                assert(pairs_to_map(t).dom().contains(k));
                let i = choose|i: int| 0 <= i < t.len() && (#[trigger] t[i]).0 == k;
                assert(s[i].0 == k);
            }
        }
        assert forall|i: int| 0 <= i < s.len() implies pairs_to_map(s).contains_pair(
            (#[trigger] s[i]).0,
            s[i].1,
        ) by {
            if i < s.len() - 1 {
                assert(t[i] == s[i]);
                assert(s[i].0 != s[s.len() - 1].0);
            }
        }
    }
}

/// A finite map. Looking a key up walks the list, which is meant to be short.
pub struct Table<K: Key, V> {
    pairs: Vec<(K, V)>,
}

impl<K: Key, V> View for Table<K, V> {
    type V = Map<K, V>;

    closed spec fn view(&self) -> Map<K, V> {
        pairs_to_map(self.pairs@)
    }
}

impl<K: Key, V> Table<K, V> {
    #[verifier::type_invariant]
    spec fn keys_are_distinct(self) -> bool {
        distinct_keys(self.pairs@)
    }

    /// The empty table.
    pub fn new() -> (t: Self)
        ensures
            t@ == Map::<K, V>::empty(),
    {
        Table { pairs: Vec::new() }
    }

    /// The position of `key`, or the length of the list if it is not there.
    fn position(&self, key: &K) -> (i: usize)
        ensures
            i <= self.pairs@.len(),
            i < self.pairs@.len() ==> self.pairs@[i as int].0 == *key,
            self@.contains_key(*key) == (i < self.pairs@.len()),
            i < self.pairs@.len() ==> self@[*key] == self.pairs@[i as int].1,
    {
        proof {
            use_type_invariant(self);
            lemma_pairs_to_map(self.pairs@);
        }
        let mut i: usize = 0;
        while i < self.pairs.len()
            invariant
                i <= self.pairs@.len(),
                distinct_keys(self.pairs@),
                forall|j: int| 0 <= j < i ==> (#[trigger] self.pairs@[j]).0 != *key,
            decreases self.pairs@.len() - i,
        {
            if self.pairs[i].0.same(key) {
                proof {
                    lemma_pairs_to_map(self.pairs@);
                }
                return i;
            }
            i = i + 1;
        }
        proof {
            lemma_pairs_to_map(self.pairs@);
        }
        i
    }

    /// Is there a value under `key`?
    pub fn has(&self, key: &K) -> (r: bool)
        ensures
            r == self@.contains_key(*key),
    {
        self.position(key) < self.pairs.len()
    }

    /// The value under `key`.
    pub fn get(&self, key: &K) -> (r: Option<&V>)
        ensures
            r == (match self@.get(*key) {
                Some(v) => Some(&v),
                None => None::<&V>,
            }),
    {
        let i: usize = self.position(key);
        if i < self.pairs.len() {
            Some(&self.pairs[i].1)
        } else {
            None
        }
    }

    /// A copy of the value under `key`.
    pub fn copied(&self, key: &K) -> (r: Option<V>) where V: Copy
        ensures
            r == self@.get(*key),
    {
        match self.get(key) {
            Some(v) => Some(*v),
            None => None,
        }
    }

    /// Puts `value` under `key`, in place of what was there.
    pub fn set(&mut self, key: K, value: V)
        ensures
            final(self)@ == old(self)@.insert(key, value),
    {
        let i: usize = self.position(&key);
        proof {
            use_type_invariant(&*self);
            lemma_pairs_to_map(self.pairs@);
        }
        let ghost before = self.pairs@;
        let mut pairs: Vec<(K, V)> = Vec::new();
        std::mem::swap(&mut pairs, &mut self.pairs);
        if i < pairs.len() {
            pairs[i] = (key, value);
        } else {
            pairs.push((key, value));
        }
        proof {
            if i < before.len() {
                assert(pairs@ =~= before.update(i as int, (key, value)));
            } else {
                assert(pairs@ =~= before.push((key, value)));
            }
            assert(distinct_keys(pairs@));
            lemma_same_pairs(before, pairs@, key, value);
        }
        self.pairs = pairs;
    }

    /// Takes the value under `key` out.
    pub fn remove(&mut self, key: &K) -> (r: Option<V>)
        ensures
            final(self)@ == old(self)@.remove(*key),
            r == old(self)@.get(*key),
    {
        let i: usize = self.position(key);
        proof {
            use_type_invariant(&*self);
            lemma_pairs_to_map(self.pairs@);
        }
        let ghost before = self.pairs@;
        if i < self.pairs.len() {
            let mut pairs: Vec<(K, V)> = Vec::new();
            std::mem::swap(&mut pairs, &mut self.pairs);
            let pair = pairs.swap_remove(i);
            proof {
                lemma_fewer_pairs(before, pairs@, i as int);
            }
            self.pairs = pairs;
            Some(pair.1)
        } else {
            assert(self@ =~= old(self)@.remove(*key));
            None
        }
    }
}

/// A list of pairs stands for a finite map.
proof fn lemma_finite<K, V>(s: Seq<(K, V)>)
    ensures
        pairs_to_map(s).dom().finite(),
    decreases s.len(),
{
    if s.len() > 0 {
        lemma_finite(s.drop_last());
    }
}

/// A table holds finitely many keys.
pub proof fn law_a_table_is_finite<K: Key, V>(t: Table<K, V>)
    ensures
        t@.dom().finite(),
{
    lemma_finite(t.pairs@);
}

/// Setting one key in a list of pairs inserts it into the map.
proof fn lemma_same_pairs<K, V>(before: Seq<(K, V)>, after: Seq<(K, V)>, key: K, value: V)
    requires
        distinct_keys(before),
        distinct_keys(after),
        (exists|i: int|
            0 <= i < before.len() && (#[trigger] before[i]).0 == key && after == before.update(
                i,
                (key, value),
            )) || after == before.push((key, value)),
    ensures
        pairs_to_map(after) == pairs_to_map(before).insert(key, value),
{
    lemma_pairs_to_map(before);
    lemma_pairs_to_map(after);
    let m = pairs_to_map(before).insert(key, value);
    let n = pairs_to_map(after);
    assert forall|k: K| #[trigger] m.dom().contains(k) implies n.contains_pair(k, m[k]) by {
        if k == key {
            if after == before.push((key, value)) {
                assert(after[before.len() as int] == (key, value));
            } else {
                let i = choose|i: int|
                    0 <= i < before.len() && (#[trigger] before[i]).0 == key && after
                        == before.update(i, (key, value));
                assert(after[i] == (key, value));
            }
        } else {
            let j = choose|j: int| 0 <= j < before.len() && (#[trigger] before[j]).0 == k;
            assert(after[j] == before[j]);
        }
    }
    assert forall|k: K| #[trigger] n.dom().contains(k) implies m.dom().contains(k) by {
        let j = choose|j: int| 0 <= j < after.len() && (#[trigger] after[j]).0 == k;
        if k != key {
            assert(after[j] == before[j]);
        }
    }
    assert(m =~= n);
}

/// Dropping one pair, with the last one put in its place, removes its key.
proof fn lemma_fewer_pairs<K, V>(before: Seq<(K, V)>, after: Seq<(K, V)>, i: int)
    requires
        distinct_keys(before),
        0 <= i < before.len(),
        after == before.update(i, before.last()).drop_last(),
    ensures
        distinct_keys(after),
        pairs_to_map(after) == pairs_to_map(before).remove(before[i].0),
{
    assert(forall|j: int|
        0 <= j < after.len() ==> #[trigger] after[j] == if j == i {
            before[before.len() - 1]
        } else {
            before[j]
        });
    lemma_pairs_to_map(before);
    lemma_pairs_to_map(after);
    let key = before[i].0;
    let m = pairs_to_map(before).remove(key);
    let n = pairs_to_map(after);
    assert forall|k: K| #[trigger] m.dom().contains(k) implies n.contains_pair(k, m[k]) by {
        let j = choose|j: int| 0 <= j < before.len() && (#[trigger] before[j]).0 == k;
        if j == before.len() - 1 {
            assert(after[i] == before[j]);
        } else {
            assert(after[j] == before[j]);
        }
    }
    assert forall|k: K| #[trigger] n.dom().contains(k) implies m.dom().contains(k) by {
        let j = choose|j: int| 0 <= j < after.len() && (#[trigger] after[j]).0 == k;
        if j == i {
            assert(before[before.len() - 1].0 == k);
        } else {
            assert(before[j].0 == k);
        }
    }
    assert(m =~= n);
}

} // verus!
