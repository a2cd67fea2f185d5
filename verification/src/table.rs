//! Maps keyed by strings or by 128-bit identifiers, viewed as finite maps.
//!
//! Entries are kept in a vector with pairwise distinct keys; a key that is
//! inserted again has its value replaced in place, a new key goes last.
use vstd::prelude::*;
use vstd::std_specs::iter::IteratorSpec;

verus! {

/// A finite map from strings to values.
#[derive(Debug)]
pub struct StrMap<V> {
    entries: Vec<(String, V)>,
}

impl<V> View for StrMap<V> {
    type V = Map<Seq<char>, V>;

    closed spec fn view(&self) -> Map<Seq<char>, V> {
        Map::new(
            |k: Seq<char>| self.key_seq().contains(k),
            |k: Seq<char>| self.value_seq()[self.key_seq().index_of(k)],
        )
    }
}

impl<V> StrMap<V> {
    /// The keys, in storage order.
    pub closed spec fn key_seq(&self) -> Seq<Seq<char>> {
        Seq::new(self.entries@.len(), |i: int| self.entries@[i].0@)
    }

    /// The values, in storage order (aligned with `key_seq`).
    pub closed spec fn value_seq(&self) -> Seq<V> {
        Seq::new(self.entries@.len(), |i: int| self.entries@[i].1)
    }

    /// The keys are pairwise distinct (the type's invariant).
    #[verifier::type_invariant]
    pub closed spec fn wf(&self) -> bool {
        self.key_seq().no_duplicates()
    }

    proof fn lemma_index_of(&self, i: int)
        requires
            self.key_seq().no_duplicates(),
            0 <= i < self.key_seq().len(),
        ensures
            self.key_seq().index_of(self.key_seq()[i]) == i,
    {
        let k = self.key_seq()[i];
        assert(self.key_seq().contains(k));
        let j = self.key_seq().index_of(k);
        assert(0 <= j < self.key_seq().len() && self.key_seq()[j] == k);
    }

    /// How the storage order relates to the map: keys and values are aligned,
    /// keys are distinct, and together they hold exactly the map's entries.
    pub proof fn lemma_storage(&self)
        requires
            self.wf(),
        ensures
            self.key_seq().len() == self.value_seq().len(),
            self.key_seq().len() == self@.len(),
            self.key_seq().no_duplicates(),
            self@.dom() == self.key_seq().to_set(),
            self@.dom().finite(),
            forall|i: int|
                0 <= i < self.key_seq().len() ==> #[trigger] self@[self.key_seq()[i]]
                    == self.value_seq()[i],
            forall|k: Seq<char>|
                self@.contains_key(k) ==> exists|i: int|
                    0 <= i < self.key_seq().len() && #[trigger] self.key_seq()[i] == k,
    {
        assert(self@.dom() =~= self.key_seq().to_set());
        self.key_seq().unique_seq_to_set();
        assert forall|i: int| 0 <= i < self.key_seq().len() implies #[trigger] self@[self.key_seq()[i]]
            == self.value_seq()[i] by {
            self.lemma_index_of(i);
        }
        assert forall|k: Seq<char>| self@.contains_key(k) implies exists|i: int|
            0 <= i < self.key_seq().len() && #[trigger] self.key_seq()[i] == k by {
            let i = self.key_seq().index_of(k);
            assert(self.key_seq()[i] == k);
        }
    }

    /// The map is finite: its keys are those stored.
    pub proof fn lemma_finite(&self)
        ensures
            self@.dom().finite(),
            self@.dom() == self.key_seq().to_set(),
    {
        assert(self@.dom() =~= self.key_seq().to_set());
        vstd::seq_lib::seq_to_set_is_finite(self.key_seq());
    }

    /// An empty map.
    pub fn new() -> (r: StrMap<V>)
        ensures
            r@ == Map::<Seq<char>, V>::empty(),
            r.key_seq().len() == 0,
    {
        let r = StrMap { entries: Vec::new() };
        assert(r@ =~= Map::<Seq<char>, V>::empty());
        r
    }

    /// Number of entries.
    pub fn len(&self) -> (r: usize)
        ensures
            r == self@.len(),
            r == self.key_seq().len(),
    {
        proof {
            use_type_invariant(self);
            self.lemma_storage();
        }
        self.entries.len()
    }

    /// Whether there are no entries.
    pub fn is_empty(&self) -> (r: bool)
        ensures
            r == (self@.len() == 0),
            r == (self@ == Map::<Seq<char>, V>::empty()),
    {
        proof {
            use_type_invariant(self);
            self.lemma_storage();
            if self@.len() == 0 {
                assert(self@ =~= Map::<Seq<char>, V>::empty());
            }
        }
        self.entries.len() == 0
    }

    /// The key stored at position `i`.
    pub fn key_at(&self, i: usize) -> (r: &String)
        requires
            i < self.key_seq().len(),
        ensures
            r@ == self.key_seq()[i as int],
    {
        &self.entries[i].0
    }

    /// The value stored at position `i`.
    pub fn value_at(&self, i: usize) -> (r: &V)
        requires
            i < self.key_seq().len(),
        ensures
            *r == self.value_seq()[i as int],
    {
        &self.entries[i].1
    }

    /// The position of `key`, if present.
    pub fn find(&self, key: &str) -> (r: Option<usize>)
        ensures
            r matches Some(i) ==> i < self.key_seq().len() && self.key_seq()[i as int] == key@,
            r is None ==> !self@.contains_key(key@),
            r is Some <==> self@.contains_key(key@),
    {
        proof {
            use_type_invariant(self);
        }
        let k = String::from_str(key);
        let n = self.entries.len();
        let mut i: usize = 0;
        while i < n
            invariant
                n == self.entries@.len(),
                k@ == key@,
                i <= n,
                forall|j: int| 0 <= j < i ==> self.key_seq()[j] != key@,
            decreases n - i,
        {
            if self.entries[i].0 == k {
                assert(self.key_seq()[i as int] == key@);
                assert(self.key_seq().contains(key@));
                return Some(i);
            }
            i = i + 1;
        }
        assert(!self.key_seq().contains(key@));
        None
    }

    /// Whether `key` has an entry.
    pub fn contains_key(&self, key: &str) -> (r: bool)
        ensures
            r == self@.contains_key(key@),
    {
        self.find(key).is_some()
    }

    /// The value of `key`, if present.
    pub fn get(&self, key: &str) -> (r: Option<&V>)
        ensures
            r matches Some(v) ==> self@.contains_key(key@) && *v == self@[key@],
            r is None ==> !self@.contains_key(key@),
    {
        match self.find(key) {
            Some(i) => {
                proof {
                    use_type_invariant(self);
                    self.lemma_storage();
                }
                Some(&self.entries[i].1)
            },
            None => None,
        }
    }

    /// Sets the value of `key`; returns the value it replaced, if any.
    pub fn insert(&mut self, key: String, value: V) -> (r: Option<V>)
        ensures
            final(self)@ == old(self)@.insert(key@, value),
            old(self)@.contains_key(key@) ==> r == Some(old(self)@[key@]),
            !old(self)@.contains_key(key@) ==> r is None,
            old(self)@.contains_key(key@) ==> final(self).key_seq() == old(self).key_seq(),
            !old(self)@.contains_key(key@) ==> final(self).key_seq() == old(self).key_seq().push(
                key@,
            ),
    {
        proof {
            use_type_invariant(&*self);
            self.lemma_storage();
        }
        let pos = self.find(key.as_str());
        let ghost old_keys = self.key_seq();
        let ghost old_vals = self.value_seq();
        let ghost old_map = self@;
        let mut entries: Vec<(String, V)> = Vec::new();
        std::mem::swap(&mut entries, &mut self.entries);
        let r = match pos {
            Some(i) => {
                let (_, previous) = entries.remove(i);
                entries.insert(i, (key, value));
                Some(previous)
            },
            None => {
                entries.push((key, value));
                None
            },
        };
        let ghost new_keys = Seq::new(entries@.len(), |i: int| entries@[i].0@);
        proof {
            match pos {
                Some(i) => {
                    assert(new_keys =~= old_keys);
                },
                None => {
                    assert(new_keys =~= old_keys.push(key@));
                    assert(new_keys.no_duplicates()) by {
                        assert(!old_keys.contains(key@));
                    }
                },
            }
        }
        self.entries = entries;
        proof {
            use_type_invariant(&*self);
            self.lemma_storage();
            assert(self@ =~= old_map.insert(key@, value)) by {
                match pos {
                    Some(i) => {
                        assert(self.value_seq() =~= old_vals.update(i as int, value));
                        assert forall|k: Seq<char>| #[trigger] self@.contains_key(k) implies self@[k]
                            == old_map.insert(key@, value)[k] by {
                            let j = choose|j: int|
                                0 <= j < self.key_seq().len() && #[trigger] self.key_seq()[j] == k;
                            if k != key@ {
                                assert(j != i);
                                assert(old_map[old_keys[j]] == old_vals[j]);
                            }
                        }
                        assert forall|k: Seq<char>| #[trigger] old_map.contains_key(k) implies self@.contains_key(k) by {
                            let j = choose|j: int|
                                0 <= j < old_keys.len() && #[trigger] old_keys[j] == k;
                            assert(self.key_seq()[j] == k);
                        }
                    },
                    None => {
                        assert(self.value_seq() =~= old_vals.push(value));
                        assert forall|k: Seq<char>| #[trigger] self@.contains_key(k) implies self@[k]
                            == old_map.insert(key@, value)[k] by {
                            let j = choose|j: int|
                                0 <= j < self.key_seq().len() && #[trigger] self.key_seq()[j] == k;
                            if k != key@ {
                                assert(j < old_keys.len());
                                assert(old_map[old_keys[j]] == old_vals[j]);
                            }
                        }
                        assert forall|k: Seq<char>| #[trigger] old_map.contains_key(k) implies self@.contains_key(k) by {
                            let j = choose|j: int|
                                0 <= j < old_keys.len() && #[trigger] old_keys[j] == k;
                            assert(self.key_seq()[j] == k);
                        }
                        assert(self.key_seq()[old_keys.len() as int] == key@);
                    },
                }
            }
        }
        r
    }

    /// Removes the entry of `key`; returns its value, if there was one.
    /// The remaining entries keep their relative order.
    pub fn remove(&mut self, key: &str) -> (r: Option<V>)
        ensures
            final(self)@ == old(self)@.remove(key@),
            old(self)@.contains_key(key@) ==> r == Some(old(self)@[key@]),
            !old(self)@.contains_key(key@) ==> r is None,
    {
        proof {
            use_type_invariant(&*self);
            self.lemma_storage();
        }
        let pos = self.find(key);
        match pos {
            None => {
                proof {
                    assert(old(self)@.remove(key@) =~= old(self)@);
                }
                None
            },
            Some(i) => {
                let ghost old_keys = self.key_seq();
                let ghost old_vals = self.value_seq();
                let ghost old_map = self@;
                let mut entries: Vec<(String, V)> = Vec::new();
                std::mem::swap(&mut entries, &mut self.entries);
                let (_, v) = entries.remove(i);
                let ghost new_keys = Seq::new(entries@.len(), |j: int| entries@[j].0@);
                proof {
                    assert(new_keys =~= old_keys.remove(i as int));
                    assert(new_keys.no_duplicates()) by {
                        assert forall|a: int, b: int|
                            0 <= a < new_keys.len() && 0 <= b < new_keys.len() && a != b implies new_keys[a]
                            != new_keys[b] by {
                            let oa = if a < i {
                                a
                            } else {
                                a + 1
                            };
                            let ob = if b < i {
                                b
                            } else {
                                b + 1
                            };
                            assert(new_keys[a] == old_keys[oa]);
                            assert(new_keys[b] == old_keys[ob]);
                        }
                    }
                }
                self.entries = entries;
                proof {
                    use_type_invariant(&*self);
                    self.lemma_storage();
                    assert(self.value_seq() =~= old_vals.remove(i as int));
                    assert(self@ =~= old_map.remove(key@)) by {
                        assert forall|k: Seq<char>| #[trigger] self@.contains_key(k) implies k != key@
                            && old_map.contains_key(k) && self@[k] == old_map[k] by {
                            let j = choose|j: int|
                                0 <= j < self.key_seq().len() && #[trigger] self.key_seq()[j] == k;
                            let oj = if j < i {
                                j
                            } else {
                                j + 1
                            };
                            assert(old_keys[oj] == k);
                            assert(oj != i);
                            assert(old_map[old_keys[oj]] == old_vals[oj]);
                        }
                        assert forall|k: Seq<char>|
                            #[trigger] old_map.contains_key(k) && k != key@ implies self@.contains_key(k) by {
                            let j = choose|j: int|
                                0 <= j < old_keys.len() && #[trigger] old_keys[j] == k;
                            assert(j != i);
                            let nj = if j < i {
                                j
                            } else {
                                j - 1
                            };
                            assert(self.key_seq()[nj] == k);
                        }
                    }
                }
                Some(v)
            },
        }
    }
}

impl<V: Clone> Clone for StrMap<V> {
    /// A copy with the same keys in the same order, each value cloned.
    fn clone(&self) -> (r: Self)
        ensures
            r.key_seq() == self.key_seq(),
            r.value_seq().len() == self.value_seq().len(),
            forall|i: int|
                0 <= i < self.value_seq().len() ==> cloned::<V>(
                    self.value_seq()[i],
                    #[trigger] r.value_seq()[i],
                ),
    {
        proof {
            use_type_invariant(self);
        }
        let n = self.entries.len();
        let mut entries: Vec<(String, V)> = Vec::new();
        let mut i: usize = 0;
        while i < n
            invariant
                n == self.entries@.len(),
                i <= n,
                entries@.len() == i,
                forall|j: int|
                    0 <= j < i ==> (#[trigger] entries@[j]).0@ == self.entries@[j].0@ && cloned::<V>(
                        self.entries@[j].1,
                        entries@[j].1,
                    ),
            decreases n - i,
        {
            let key = self.entries[i].0.clone();
            let value = self.entries[i].1.clone();
            entries.push((key, value));
            i = i + 1;
        }
        proof {
            use_type_invariant(self);
            assert(Seq::new(entries@.len(), |j: int| entries@[j].0@) =~= self.key_seq());
        }
        let r = StrMap { entries };
        assert(r.key_seq() =~= self.key_seq());
        r
    }
}

/// A finite map from 128-bit identifiers to values, held in a `HashMap`.
#[derive(Debug)]
pub struct IdMap<V> {
    map: std::collections::HashMap<u128, V>,
}

impl<V> View for IdMap<V> {
    type V = Map<u128, V>;

    closed spec fn view(&self) -> Map<u128, V> {
        self.map@
    }
}

/// `entries` lists each entry of `m` exactly once.
pub open spec fn lists_entries<V>(m: Map<u128, V>, entries: Seq<(u128, &V)>) -> bool {
    &&& entries.len() == m.len()
    &&& forall|i: int|
        #![trigger entries[i]]
        0 <= i < entries.len() ==> m.contains_key(entries[i].0) && *entries[i].1 == m[entries[i].0]
    &&& forall|i: int, j: int| 0 <= i < j < entries.len() ==> entries[i].0 != entries[j].0
    &&& forall|k: u128|
        #[trigger] m.contains_key(k) ==> exists|i: int| 0 <= i < entries.len() && entries[i].0 == k
}

impl<V> IdMap<V> {
    /// The map is finite.
    pub proof fn lemma_finite(&self)
        ensures
            self@.dom().finite(),
    {
        broadcast use vstd::std_specs::hash::group_hash_axioms;

    }

    /// An empty map.
    pub fn new() -> (r: IdMap<V>)
        ensures
            r@ == Map::<u128, V>::empty(),
    {
        IdMap { map: std::collections::HashMap::new() }
    }

    /// Number of entries.
    pub fn len(&self) -> (r: usize)
        ensures
            r == self@.len(),
    {
        broadcast use vstd::std_specs::hash::group_hash_axioms;

        self.map.len()
    }

    /// Whether there are no entries.
    pub fn is_empty(&self) -> (r: bool)
        ensures
            r == (self@.len() == 0),
    {
        self.len() == 0
    }

    /// Whether `key` has an entry.
    pub fn contains_key(&self, key: u128) -> (r: bool)
        ensures
            r == self@.contains_key(key),
    {
        broadcast use vstd::std_specs::hash::group_hash_axioms;

        self.map.contains_key(&key)
    }

    /// The value of `key`, if present.
    pub fn get(&self, key: u128) -> (r: Option<&V>)
        ensures
            r matches Some(v) ==> self@.contains_key(key) && *v == self@[key],
            r is None ==> !self@.contains_key(key),
    {
        broadcast use vstd::std_specs::hash::group_hash_axioms;

        self.map.get(&key)
    }

    /// Sets the value of `key`; returns the value it replaced, if any.
    pub fn insert(&mut self, key: u128, value: V) -> (r: Option<V>)
        ensures
            final(self)@ == old(self)@.insert(key, value),
            old(self)@.contains_key(key) ==> r == Some(old(self)@[key]),
            !old(self)@.contains_key(key) ==> r is None,
    {
        broadcast use vstd::std_specs::hash::group_hash_axioms;

        self.map.insert(key, value)
    }

    /// Removes the entry of `key`; returns its value, if there was one.
    pub fn remove(&mut self, key: u128) -> (r: Option<V>)
        ensures
            final(self)@ == old(self)@.remove(key),
            old(self)@.contains_key(key) ==> r == Some(old(self)@[key]),
            !old(self)@.contains_key(key) ==> r is None,
    {
        broadcast use vstd::std_specs::hash::group_hash_axioms;

        self.map.remove(&key)
    }

    /// Every entry, once each, in the map's iteration order.
    pub fn entries(&self) -> (r: Vec<(u128, &V)>)
        ensures
            lists_entries(self@, r@),
    {
        broadcast use vstd::std_specs::hash::group_hash_axioms;

        let mut out: Vec<(u128, &V)> = Vec::new();
        let ghost m = self.map@;
        let ghost v = vstd::std_specs::hash::spec_hash_map_iter(&self.map).remaining();
        for pair in it: self.map.iter()
            invariant
                m == self.map@,
                v == vstd::std_specs::hash::spec_hash_map_iter(&self.map).remaining(),
                it.seq() == v,
                out@.len() == it.index(),
                forall|j: int|
                    0 <= j < it.index() ==> (#[trigger] out@[j]).0 == *v[j].0 && out@[j].1 == v[j].1,
        {
            out.push((*pair.0, pair.1));
        }
        proof {
            assert(out@.len() == v.len());
            assert(v.len() == m.dom().len());
            assert(v.no_duplicates());
            assert forall|i: int|
                #![trigger out@[i]]
                0 <= i < out@.len() implies m.contains_key(out@[i].0) && *out@[i].1 == m[out@[i].0] by {
                assert(m.contains_key(*v[i].0) && m[*v[i].0] == *v[i].1);
            }
            assert forall|i: int, j: int| 0 <= i < j < out@.len() implies out@[i].0 != out@[j].0 by {
                if out@[i].0 == out@[j].0 {
                    assert(m.contains_key(*v[i].0) && m[*v[i].0] == *v[i].1);
                    assert(m.contains_key(*v[j].0) && m[*v[j].0] == *v[j].1);
                    assert(v[i] == v[j]);
                }
            }
            assert forall|k: u128| #[trigger] m.contains_key(k) implies exists|i: int|
                0 <= i < out@.len() && out@[i].0 == k by {
                assert(v.contains((&k, &m[k])));
                let i = choose|i: int| 0 <= i < v.len() && v[i] == (&k, &m[k]);
                assert(out@[i].0 == k);
            }
        }
        out
    }
}

impl<V: Clone> Clone for IdMap<V> {
    /// A copy holding the same entries.
    fn clone(&self) -> (r: Self)
        ensures
            r@ == self@,
    {
        IdMap { map: self.map.clone() }
    }
}

} // verus!
