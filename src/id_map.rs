//! A map stored as a vector of entries with distinct keys.
//!
//! Lookups compare keys in executable code, so the map works for keys such as
//! strings whose hashing Verus cannot reason about.

use vstd::prelude::*;

verus! {

/// Keys whose executable comparison and copy agree with their view.
pub trait MapKey: View + Sized {
    fn same_key(&self, other: &Self) -> (r: bool)
        ensures
            r == (self@ == other@),
    ;

    fn copy_key(&self) -> (r: Self)
        ensures
            r@ == self@,
    ;
}

impl MapKey for String {
    fn same_key(&self, other: &String) -> (r: bool) {
        *self == *other
    }

    fn copy_key(&self) -> (r: String) {
        self.clone()
    }
}

/// A finite map from keys to values, kept as a vector of entries.
#[derive(Debug)]
pub struct IdMap<K, V> {
    entries: Vec<(K, V)>,
}

impl<K: MapKey, V> View for IdMap<K, V> {
    type V = Map<K::V, V>;

    closed spec fn view(&self) -> Map<K::V, V> {
        Map::new(
            |k: K::V| exists|i: int| 0 <= i < self.entries.len() && self.entries[i].0@ == k,
            |k: K::V|
                self.entries[choose|i: int|
                    0 <= i < self.entries.len() && self.entries[i].0@ == k].1,
        )
    }
}

impl<K: MapKey, V> IdMap<K, V> {
    /// No two entries share a key.
    pub closed spec fn wf(&self) -> bool {
        forall|i: int, j: int|
            0 <= i < j < self.entries.len() ==> self.entries[i].0@ != self.entries[j].0@
    }

    /// The keys, in the order in which entries are kept.
    pub closed spec fn key_seq(&self) -> Seq<K::V> {
        self.entries@.map_values(|e: (K, V)| e.0@)
    }

    proof fn lemma_entry(&self, i: int)
        requires
            self.wf(),
            0 <= i < self.entries.len(),
        ensures
            self@.contains_key(self.entries[i].0@),
            self@[self.entries[i].0@] == self.entries[i].1,
    {
        let k = self.entries[i].0@;
        assert(0 <= i < self.entries.len() && self.entries[i].0@ == k);
        let j = choose|j: int| 0 <= j < self.entries.len() && self.entries[j].0@ == k;
        assert(j == i);
    }

    /// The keys of the map, in the order of `key_seq`, each once.
    pub proof fn lemma_key_seq(&self)
        requires
            self.wf(),
        ensures
            self.key_seq().no_duplicates(),
            forall|k: K::V| self@.contains_key(k) <==> self.key_seq().contains(k),
    {
        assert forall|k: K::V| self@.contains_key(k) <==> self.key_seq().contains(k) by {
            if self@.contains_key(k) {
                let i = choose|i: int| 0 <= i < self.entries.len() && self.entries[i].0@ == k;
                assert(self.key_seq()[i] == k);
            }
            if self.key_seq().contains(k) {
                let i = choose|i: int| 0 <= i < self.key_seq().len() && self.key_seq()[i] == k;
                assert(self.entries[i].0@ == k);
            }
        }
    }

    /// The empty map.
    pub fn new() -> (r: Self)
        ensures
            r.wf(),
            r@ == Map::<K::V, V>::empty(),
    {
        let r = IdMap { entries: Vec::new() };
        assert(r@ =~= Map::<K::V, V>::empty());
        r
    }

    /// Number of entries.
    pub fn len(&self) -> (r: usize)
        requires
            self.wf(),
        ensures
            r == self.key_seq().len(),
    {
        self.entries.len()
    }

    /// Position of the entry for `k`, if any.
    fn find(&self, k: &K) -> (r: Option<usize>)
        requires
            self.wf(),
        ensures
            match r {
                Some(i) => i < self.entries.len() && self.entries[i as int].0@ == k@,
                None => forall|i: int| 0 <= i < self.entries.len() ==> self.entries[i].0@ != k@,
            },
            r is Some <==> self@.contains_key(k@),
    {
        let mut i: usize = 0;
        while i < self.entries.len()
            invariant
                self.wf(),
                i <= self.entries.len(),
                forall|j: int| 0 <= j < i ==> self.entries[j].0@ != k@,
            decreases self.entries.len() - i,
        {
            if self.entries[i].0.same_key(k) {
                proof {
                    self.lemma_entry(i as int);
                }
                return Some(i);
            }
            i += 1;
        }
        None
    }

    /// Whether `k` has an entry.
    pub fn contains_key(&self, k: &K) -> (r: bool)
        requires
            self.wf(),
        ensures
            r == self@.contains_key(k@),
    {
        self.find(k).is_some()
    }

    /// The value stored under `k`.
    pub fn get(&self, k: &K) -> (r: Option<&V>)
        requires
            self.wf(),
        ensures
            match r {
                Some(v) => self@.contains_key(k@) && *v == self@[k@],
                None => !self@.contains_key(k@),
            },
    {
        match self.find(k) {
            Some(i) => {
                proof {
                    self.lemma_entry(i as int);
                }
                Some(&self.entries[i].1)
            },
            None => None,
        }
    }

    /// The key at position `i` of `key_seq`.
    pub fn key_at(&self, i: usize) -> (r: &K)
        requires
            self.wf(),
            i < self.key_seq().len(),
        ensures
            r@ == self.key_seq()[i as int],
    {
        &self.entries[i].0
    }

    /// The value at position `i` of `key_seq`.
    pub fn value_at(&self, i: usize) -> (r: &V)
        requires
            self.wf(),
            i < self.key_seq().len(),
        ensures
            self@.contains_key(self.key_seq()[i as int]),
            *r == self@[self.key_seq()[i as int]],
    {
        proof {
            self.lemma_entry(i as int);
        }
        &self.entries[i].1
    }

    /// Stores `v` under `k`, replacing what was there.
    pub fn insert(&mut self, k: K, v: V)
        requires
            old(self).wf(),
        ensures
            final(self).wf(),
            final(self)@ == old(self)@.insert(k@, v),
    {
        let ghost old_map = self@;
        let ghost kv = k@;
        match self.find(&k) {
            Some(i) => {
                self.entries.set(i, (k, v));
                proof {
                    assert forall|q: K::V| #![auto]
                        self@.contains_key(q) == old_map.insert(kv, v).contains_key(q) by {
                        if old_map.contains_key(q) {
                            let j = choose|j: int|
                                0 <= j < old(self).entries.len() && old(self).entries[j].0@ == q;
                            assert(self.entries[j].0@ == q);
                        }
                        if self@.contains_key(q) {
                            let j = choose|j: int|
                                0 <= j < self.entries.len() && self.entries[j].0@ == q;
                            assert(old(self).entries[j].0@ == q);
                        }
                    }
                    assert forall|q: K::V| #[trigger] self@.contains_key(q) implies self@[q]
                        == old_map.insert(kv, v)[q] by {
                        let j = choose|j: int|
                            0 <= j < self.entries.len() && self.entries[j].0@ == q;
                        self.lemma_entry(j);
                        if q != kv {
                            old(self).lemma_entry(j);
                        }
                    }
                    assert(self@ =~= old_map.insert(kv, v));
                }
            },
            None => {
                let ghost n = self.entries.len();
                self.entries.push((k, v));
                proof {
                    assert forall|q: K::V| #![auto]
                        self@.contains_key(q) == old_map.insert(kv, v).contains_key(q) by {
                        if old_map.contains_key(q) {
                            let j = choose|j: int|
                                0 <= j < old(self).entries.len() && old(self).entries[j].0@ == q;
                            assert(self.entries[j].0@ == q);
                        }
                        if q == kv {
                            assert(self.entries[n as int].0@ == q);
                        }
                    }
                    assert forall|q: K::V| #[trigger] self@.contains_key(q) implies self@[q]
                        == old_map.insert(kv, v)[q] by {
                        let j = choose|j: int|
                            0 <= j < self.entries.len() && self.entries[j].0@ == q;
                        self.lemma_entry(j);
                        if q != kv {
                            old(self).lemma_entry(j);
                        }
                    }
                    assert(self@ =~= old_map.insert(kv, v));
                }
            },
        }
    }

    /// Removes the entry for `k` and returns its value.
    pub fn remove(&mut self, k: &K) -> (r: Option<V>)
        requires
            old(self).wf(),
        ensures
            final(self).wf(),
            final(self)@ == old(self)@.remove(k@),
            match r {
                Some(v) => old(self)@.contains_key(k@) && v == old(self)@[k@],
                None => !old(self)@.contains_key(k@),
            },
    {
        let ghost old_map = self@;
        match self.find(k) {
            Some(i) => {
                proof {
                    self.lemma_entry(i as int);
                }
                let e = self.entries.remove(i);
                proof {
                    assert forall|q: K::V| #![auto]
                        self@.contains_key(q) == old_map.remove(k@).contains_key(q) by {
                        if old_map.contains_key(q) && q != k@ {
                            let j = choose|j: int|
                                0 <= j < old(self).entries.len() && old(self).entries[j].0@ == q;
                            if j < i {
                                assert(self.entries[j].0@ == q);
                            } else {
                                assert(j != i);
                                assert(self.entries[j - 1].0@ == q);
                            }
                        }
                        if self@.contains_key(q) {
                            let j = choose|j: int|
                                0 <= j < self.entries.len() && self.entries[j].0@ == q;
                            if j < i {
                                assert(old(self).entries[j].0@ == q);
                            } else {
                                assert(old(self).entries[j + 1].0@ == q);
                            }
                        }
                    }
                    assert forall|q: K::V| #[trigger] self@.contains_key(q) implies self@[q]
                        == old_map.remove(k@)[q] by {
                        let j = choose|j: int|
                            0 <= j < self.entries.len() && self.entries[j].0@ == q;
                        self.lemma_entry(j);
                        if j < i {
                            old(self).lemma_entry(j);
                        } else {
                            old(self).lemma_entry(j + 1);
                        }
                    }
                    assert(self@ =~= old_map.remove(k@));
                }
                Some(e.1)
            },
            None => {
                proof {
                    assert(self@ =~= old_map.remove(k@));
                }
                None
            },
        }
    }

    /// The keys, in the order of `key_seq`.
    pub fn keys(&self) -> (r: Vec<K>)
        requires
            self.wf(),
        ensures
            r@.map_values(|k: K| k@) == self.key_seq(),
    {
        let mut r: Vec<K> = Vec::new();
        let mut i: usize = 0;
        while i < self.entries.len()
            invariant
                i <= self.entries.len(),
                r.len() == i,
                r@.map_values(|k: K| k@) == self.key_seq().take(i as int),
            decreases self.entries.len() - i,
        {
            let ghost prev = r@;
            r.push(self.entries[i].0.copy_key());
            proof {
                assert forall|j: int| 0 <= j < i + 1 implies #[trigger] r@[j]@ == self.key_seq()[j] by {
                    if j < i {
                        assert(prev.map_values(|k: K| k@)[j] == self.key_seq().take(i as int)[j]);
                    }
                }
                assert(r@.map_values(|k: K| k@) =~= self.key_seq().take(i + 1));
            }
            i += 1;
        }
        proof {
            assert(self.key_seq().take(i as int) =~= self.key_seq());
        }
        r
    }
}

} // verus!
