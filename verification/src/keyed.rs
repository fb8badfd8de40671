//! A small map from integer keys to values, kept as a vector of entries with
//! distinct keys. The side stores of the runtime (application data, type
//! metatables, memory categories) are built on it.

use vstd::prelude::*;

verus! {

/// Entries `(key, value)` with pairwise distinct keys.
#[derive(Debug)]
pub struct KeyedVec<V> {
    pub(crate) entries: Vec<(u64, V)>,
}

/// No two entries share a key.
pub open spec fn spec_keys_distinct<V>(s: Seq<(u64, V)>) -> bool {
    forall|i: int, j: int| 0 <= i < s.len() && 0 <= j < s.len() && i != j ==> #[trigger] s[i].0 != #[trigger] s[j].0
}

/// The map that distinct-keyed entries describe.
pub open spec fn spec_entries_map<V>(s: Seq<(u64, V)>) -> Map<u64, V> {
    Map::new(
        |k: u64| exists|i: int| 0 <= i < s.len() && #[trigger] s[i].0 == k,
        |k: u64| s[choose|i: int| 0 <= i < s.len() && #[trigger] s[i].0 == k].1,
    )
}

/// With distinct keys, the entry at `i` is what the map holds under its key.
pub proof fn lemma_entry_in_map<V>(s: Seq<(u64, V)>, i: int)
    requires
        spec_keys_distinct(s),
        0 <= i < s.len(),
    ensures
        spec_entries_map(s).contains_key(s[i].0),
        spec_entries_map(s)[s[i].0] == s[i].1,
{
    let k = s[i].0;
    assert(s[i].0 == k);
    let j = choose|j: int| 0 <= j < s.len() && #[trigger] s[j].0 == k;
    assert(s[j].0 == k);
}

impl<V> KeyedVec<V> {
    /// Distinct keys.
    pub closed spec fn wf(&self) -> bool {
        spec_keys_distinct(self.entries@)
    }

    /// The map that the entries describe.
    pub closed spec fn spec_map(&self) -> Map<u64, V> {
        spec_entries_map(self.entries@)
    }

    /// An empty map.
    pub fn new() -> (r: Self)
        ensures
            r.wf(),
            r.spec_map() == Map::<u64, V>::empty(),
    {
        let r = KeyedVec { entries: Vec::new() };
        assert(r.spec_map() =~= Map::<u64, V>::empty());
        r
    }

    /// The position of the entry holding `key`.
    pub(crate) fn find(&self, key: u64) -> (r: Option<usize>)
        requires
            self.wf(),
        ensures
            r matches Some(i) ==> i < self.entries@.len() && self.entries@[i as int].0 == key
                && self.spec_map().contains_key(key) && self.spec_map()[key] == self.entries@[i as int].1,
            r is None ==> !self.spec_map().contains_key(key),
    {
        let mut i: usize = 0;
        while i < self.entries.len()
            invariant
                self.wf(),
                i <= self.entries@.len(),
                forall|j: int| 0 <= j < i ==> #[trigger] self.entries@[j].0 != key,
            decreases self.entries.len() - i,
        {
            if self.entries[i].0 == key {
                proof { lemma_entry_in_map(self.entries@, i as int); }
                return Some(i);
            }
            i += 1;
        }
        None
    }

    /// A reference to the value under `key`.
    pub fn get(&self, key: u64) -> (r: Option<&V>)
        requires
            self.wf(),
        ensures
            r matches Some(v) ==> self.spec_map().contains_key(key) && *v == self.spec_map()[key],
            r is None ==> !self.spec_map().contains_key(key),
    {
        match self.find(key) {
            Some(i) => Some(&self.entries[i].1),
            None => None,
        }
    }

    /// Whether the map holds `key`.
    pub fn contains(&self, key: u64) -> (r: bool)
        requires
            self.wf(),
        ensures
            r == self.spec_map().contains_key(key),
    {
        self.find(key).is_some()
    }

    /// Stores `value` under `key`, giving back the value it replaces.
    pub fn insert(&mut self, key: u64, value: V) -> (r: Option<V>)
        requires
            old(self).wf(),
        ensures
            final(self).wf(),
            final(self).spec_map() == old(self).spec_map().insert(key, value),
            r matches Some(v) ==> old(self).spec_map().contains_key(key) && v == old(self).spec_map()[key],
            r is None ==> !old(self).spec_map().contains_key(key),
    {
        let ghost s = self.entries@;
        match self.find(key) {
            Some(i) => {
                let mut entry = (key, value);
                core::mem::swap(&mut entry, &mut self.entries[i]);
                let ghost s2 = self.entries@;
                assert(s2 == s.update(i as int, (key, value)));
                assert forall|a: int, b: int| 0 <= a < s2.len() && 0 <= b < s2.len() && a != b implies #[trigger] s2[a].0
                    != #[trigger] s2[b].0 by {
                    assert(s2[a].0 == s[a].0);
                    assert(s2[b].0 == s[b].0);
                }
                assert forall|k: u64| #[trigger] self.spec_map().contains_key(k) == old(self).spec_map().insert(key, value).contains_key(k)
                    && (self.spec_map().contains_key(k) ==> self.spec_map()[k] == old(self).spec_map().insert(key, value)[k]) by {
                    if exists|j: int| 0 <= j < s2.len() && #[trigger] s2[j].0 == k {
                        let j = choose|j: int| 0 <= j < s2.len() && #[trigger] s2[j].0 == k;
                        lemma_entry_in_map(s2, j);
                        lemma_entry_in_map(s, j);
                    }
                    if exists|j: int| 0 <= j < s.len() && #[trigger] s[j].0 == k {
                        let j = choose|j: int| 0 <= j < s.len() && #[trigger] s[j].0 == k;
                        assert(s2[j].0 == k);
                    }
                }
                assert(self.spec_map() =~= old(self).spec_map().insert(key, value));
                Some(entry.1)
            },
            None => {
                self.entries.push((key, value));
                let ghost s2 = self.entries@;
                assert forall|a: int, b: int| 0 <= a < s2.len() && 0 <= b < s2.len() && a != b implies #[trigger] s2[a].0
                    != #[trigger] s2[b].0 by {
                    if a < s.len() {
                        assert(s2[a] == s[a]);
                        assert(s.contains(s[a]) ==> true);
                    }
                    if b < s.len() {
                        assert(s2[b] == s[b]);
                    }
                    if a == s.len() && b < s.len() {
                        assert(spec_entries_map(s).contains_key(s[b].0) ==> s[b].0 != key);
                        if s[b].0 == key {
                            assert(spec_entries_map(s).contains_key(key));
                        }
                    }
                    if b == s.len() && a < s.len() {
                        if s[a].0 == key {
                            assert(spec_entries_map(s).contains_key(key));
                        }
                    }
                }
                assert forall|k: u64| #[trigger] self.spec_map().contains_key(k) == old(self).spec_map().insert(key, value).contains_key(k)
                    && (self.spec_map().contains_key(k) ==> self.spec_map()[k] == old(self).spec_map().insert(key, value)[k]) by {
                    if k == key {
                        lemma_entry_in_map(s2, s.len() as int);
                    } else {
                        if exists|j: int| 0 <= j < s2.len() && #[trigger] s2[j].0 == k {
                            let j = choose|j: int| 0 <= j < s2.len() && #[trigger] s2[j].0 == k;
                            assert(j < s.len());
                            assert(s2[j] == s[j]);
                            lemma_entry_in_map(s2, j);
                            lemma_entry_in_map(s, j);
                        }
                        if exists|j: int| 0 <= j < s.len() && #[trigger] s[j].0 == k {
                            let j = choose|j: int| 0 <= j < s.len() && #[trigger] s[j].0 == k;
                            assert(s2[j] == s[j]);
                        }
                    }
                }
                assert(self.spec_map() =~= old(self).spec_map().insert(key, value));
                None
            },
        }
    }

    /// Removes the entry under `key`, giving back its value.
    pub fn remove(&mut self, key: u64) -> (r: Option<V>)
        requires
            old(self).wf(),
        ensures
            final(self).wf(),
            final(self).spec_map() == old(self).spec_map().remove(key),
            r matches Some(v) ==> old(self).spec_map().contains_key(key) && v == old(self).spec_map()[key],
            r is None ==> !old(self).spec_map().contains_key(key),
    {
        let ghost s = self.entries@;
        match self.find(key) {
            Some(i) => {
                let entry = self.entries.remove(i);
                let ghost s2 = self.entries@;
                assert(s2 == s.remove(i as int));
                assert forall|a: int, b: int| 0 <= a < s2.len() && 0 <= b < s2.len() && a != b implies #[trigger] s2[a].0
                    != #[trigger] s2[b].0 by {
                    let a1 = if a < i { a } else { a + 1 };
                    let b1 = if b < i { b } else { b + 1 };
                    assert(s2[a] == s[a1]);
                    assert(s2[b] == s[b1]);
                }
                assert forall|k: u64| #[trigger] self.spec_map().contains_key(k) == old(self).spec_map().remove(key).contains_key(k)
                    && (self.spec_map().contains_key(k) ==> self.spec_map()[k] == old(self).spec_map().remove(key)[k]) by {
                    if exists|j: int| 0 <= j < s2.len() && #[trigger] s2[j].0 == k {
                        let j = choose|j: int| 0 <= j < s2.len() && #[trigger] s2[j].0 == k;
                        let j1 = if j < i { j } else { j + 1 };
                        assert(s2[j] == s[j1]);
                        lemma_entry_in_map(s2, j);
                        lemma_entry_in_map(s, j1);
                    }
                    if k != key && exists|j: int| 0 <= j < s.len() && #[trigger] s[j].0 == k {
                        let j = choose|j: int| 0 <= j < s.len() && #[trigger] s[j].0 == k;
                        let j2 = if j < i { j } else { j - 1 };
                        assert(s2[j2] == s[j]);
                    }
                }
                assert(self.spec_map() =~= old(self).spec_map().remove(key));
                Some(entry.1)
            },
            None => {
                assert(self.spec_map() =~= old(self).spec_map().remove(key));
                None
            },
        }
    }

    /// The number of entries.
    pub fn len(&self) -> (r: usize)
        requires
            self.wf(),
        ensures
            r == self.spec_map().dom().len(),
    {
        proof { self.lemma_len(); }
        self.entries.len()
    }

    /// The number of entries is the size of the map's domain.
    proof fn lemma_len(&self)
        requires
            self.wf(),
        ensures
            self.spec_map().dom().finite(),
            self.spec_map().dom().len() == self.entries@.len(),
        decreases self.entries@.len(),
    {
        let s = self.entries@;
        let keys = s.map_values(|e: (u64, V)| e.0);
        assert(self.spec_map().dom() =~= keys.to_set()) by {
            assert forall|k: u64| self.spec_map().dom().contains(k) implies keys.to_set().contains(k) by {
                let j = choose|j: int| 0 <= j < s.len() && #[trigger] s[j].0 == k;
                assert(keys[j] == k);
            }
            assert forall|k: u64| keys.to_set().contains(k) implies self.spec_map().dom().contains(k) by {
                let j = choose|j: int| 0 <= j < keys.len() && keys[j] == k;
                assert(s[j].0 == k);
            }
        }
        assert(keys.no_duplicates()) by {
            assert forall|a: int, b: int| 0 <= a < keys.len() && 0 <= b < keys.len() && a != b implies keys[a] != keys[b] by {
                assert(s[a].0 != s[b].0);
            }
        }
        keys.unique_seq_to_set();
    }
}

} // verus!
