//! Path-keyed maps and sets.
//!
//! The session keeps per-path state (pending rotations and crops, ignored
//! images). These small collections hold it as a vector of entries whose keys
//! never repeat; their views are a `Map` and a `Set` of paths.

use vstd::prelude::*;

verus! {

/// A map from paths to values; no path occurs twice among the entries.
pub struct PathMap<V> {
    entries: Vec<(String, V)>,
}

/// `true` when no two entries share a key.
pub open spec fn keys_distinct<V>(s: Seq<(String, V)>) -> bool {
    forall|i: int, j: int| 0 <= i < s.len() && 0 <= j < s.len() && i != j ==> s[i].0@ != s[j].0@
}

/// `true` when some entry has the key `k`.
pub open spec fn has_key<V>(s: Seq<(String, V)>, k: Seq<char>) -> bool {
    exists|i: int| 0 <= i < s.len() && s[i].0@ == k
}

/// The map that a sequence of entries with distinct keys stands for.
pub open spec fn entries_map<V>(s: Seq<(String, V)>) -> Map<Seq<char>, V> {
    Map::new(
        |k: Seq<char>| has_key(s, k),
        |k: Seq<char>| s[choose|i: int| 0 <= i < s.len() && s[i].0@ == k].1,
    )
}

proof fn lemma_entry_in_map<V>(s: Seq<(String, V)>, i: int)
    requires
        keys_distinct(s),
        0 <= i < s.len(),
    ensures
        entries_map(s).dom().contains(s[i].0@),
        entries_map(s)[s[i].0@] == s[i].1,
{
    let k = s[i].0@;
    assert(has_key(s, k));
    let j = choose|j: int| 0 <= j < s.len() && s[j].0@ == k;
    assert(j == i);
}

impl<V> PathMap<V> {
    /// The entries' keys never repeat.
    pub closed spec fn wf(&self) -> bool {
        keys_distinct(self.entries@)
    }

    /// The map of paths to values.
    pub closed spec fn view(&self) -> Map<Seq<char>, V> {
        entries_map(self.entries@)
    }

    /// An empty map.
    pub fn new() -> (r: Self)
        ensures
            r@ == Map::<Seq<char>, V>::empty(),
            r.wf(),
    {
        let r = PathMap { entries: Vec::new() };
        assert(r@ =~= Map::<Seq<char>, V>::empty());
        r
    }

    /// The index of the entry for `k`, if there is one.
    fn find(&self, k: &String) -> (r: Option<usize>)
        ensures
            match r {
                Some(i) => i < self.entries@.len() && self.entries@[i as int].0@ == k@,
                None => !has_key(self.entries@, k@),
            },
    {
        let n = self.entries.len();
        let mut i: usize = 0;
        while i < n
            invariant
                n == self.entries@.len(),
                i <= n,
                forall|j: int| 0 <= j < i ==> self.entries@[j].0@ != k@,
            decreases n - i,
        {
            if self.entries[i].0 == *k {
                return Some(i);
            }
            i = i + 1;
        }
        None
    }

    /// `true` if `k` has an entry.
    pub fn contains_key(&self, k: &String) -> (r: bool)
        ensures
            r == self@.dom().contains(k@),
    {
        self.find(k).is_some()
    }

    /// The number of entries.
    pub fn len(&self) -> (r: usize)
        requires
            self.wf(),
        ensures
            r == self@.dom().len(),
    {
        proof {
            self.lemma_len();
        }
        self.entries.len()
    }

    /// `true` when the map has no entry.
    pub fn is_empty(&self) -> (r: bool)
        requires
            self.wf(),
        ensures
            r == (self@ == Map::<Seq<char>, V>::empty()),
    {
        proof {
            if self.entries@.len() > 0 {
                lemma_entry_in_map(self.entries@, 0);
                assert(!Map::<Seq<char>, V>::empty().dom().contains(self.entries@[0].0@));
            } else {
                assert(self@ =~= Map::<Seq<char>, V>::empty());
            }
        }
        self.entries.len() == 0
    }

    proof fn lemma_len(&self)
        requires
            keys_distinct(self.entries@),
        ensures
            self@.dom().finite(),
            self@.dom().len() == self.entries@.len(),
        decreases self.entries@.len(),
    {
        let s = self.entries@;
        let keys = s.map_values(|e: (String, V)| e.0@);
        assert(keys.no_duplicates()) by {
            assert forall|i: int, j: int| 0 <= i < keys.len() && 0 <= j < keys.len() && i != j
                implies keys[i] != keys[j] by {}
        }
        keys.unique_seq_to_set();
        assert(self@.dom() =~= keys.to_set()) by {
            assert forall|k: Seq<char>| self@.dom().contains(k) implies keys.to_set().contains(k) by {
                let i = choose|i: int| 0 <= i < s.len() && s[i].0@ == k;
                assert(keys[i] == k);
            }
            assert forall|k: Seq<char>| keys.to_set().contains(k) implies self@.dom().contains(k) by {
                let i = choose|i: int| 0 <= i < keys.len() && keys[i] == k;
                assert(s[i].0@ == k);
            }
        }
    }

    /// Remove every entry.
    pub fn clear(&mut self)
        requires
            old(self).wf(),
        ensures
            final(self).wf(),
            final(self)@ == Map::<Seq<char>, V>::empty(),
    {
        self.entries.clear();
        assert(self@ =~= Map::<Seq<char>, V>::empty());
    }

    /// Set the value for `k`, adding an entry if there was none.
    pub fn insert(&mut self, k: String, v: V)
        requires
            old(self).wf(),
        ensures
            final(self).wf(),
            final(self)@ == old(self)@.insert(k@, v),
    {
        let ghost old_s = self.entries@;
        match self.find(&k) {
            Some(i) => {
                self.entries.set(i, (k, v));
                proof {
                    let s = self.entries@;
                    assert(s =~= old_s.update(i as int, s[i as int]));
                    assert(keys_distinct(s));
                    assert(self@ =~= entries_map(old_s).insert(s[i as int].0@, v)) by {
                        assert forall|key: Seq<char>| #[trigger] self@.dom().contains(key) <==> entries_map(old_s).insert(s[i as int].0@, v).dom().contains(key) by {
                            if has_key(s, key) {
                                let j = choose|j: int| 0 <= j < s.len() && s[j].0@ == key;
                                if j != i {
                                    assert(old_s[j].0@ == key);
                                }
                            }
                            if has_key(old_s, key) {
                                let j = choose|j: int| 0 <= j < old_s.len() && old_s[j].0@ == key;
                                assert(s[j].0@ == key);
                            }
                        }
                        assert forall|key: Seq<char>| #[trigger] self@.dom().contains(key) implies self@[key] == entries_map(old_s).insert(s[i as int].0@, v)[key] by {
                            let j = choose|j: int| 0 <= j < s.len() && s[j].0@ == key;
                            lemma_entry_in_map(s, j);
                            if j != i {
                                lemma_entry_in_map(old_s, j);
                            }
                        }
                    }
                }
            },
            None => {
                self.entries.push((k, v));
                proof {
                    let s = self.entries@;
                    assert(keys_distinct(s));
                    let kk = s[s.len() - 1].0@;
                    assert(self@ =~= entries_map(old_s).insert(kk, v)) by {
                        assert forall|key: Seq<char>| #[trigger] self@.dom().contains(key) <==> entries_map(old_s).insert(kk, v).dom().contains(key) by {
                            if has_key(s, key) {
                                let j = choose|j: int| 0 <= j < s.len() && s[j].0@ == key;
                                if j != s.len() - 1 {
                                    assert(old_s[j].0@ == key);
                                }
                            }
                            if has_key(old_s, key) {
                                let j = choose|j: int| 0 <= j < old_s.len() && old_s[j].0@ == key;
                                assert(s[j].0@ == key);
                            }
                        }
                        assert forall|key: Seq<char>| #[trigger] self@.dom().contains(key) implies self@[key] == entries_map(old_s).insert(kk, v)[key] by {
                            let j = choose|j: int| 0 <= j < s.len() && s[j].0@ == key;
                            lemma_entry_in_map(s, j);
                            if j != s.len() - 1 {
                                lemma_entry_in_map(old_s, j);
                            }
                        }
                    }
                }
            },
        }
    }

    /// Remove the entry for `k`, if there is one.
    pub fn remove(&mut self, k: &String)
        requires
            old(self).wf(),
        ensures
            final(self).wf(),
            final(self)@ == old(self)@.remove(k@),
    {
        let ghost old_s = self.entries@;
        match self.find(k) {
            Some(i) => {
                let _ = self.entries.remove(i);
                proof {
                    let s = self.entries@;
                    assert(s =~= old_s.remove(i as int));
                    assert(keys_distinct(s));
                    assert(self@ =~= entries_map(old_s).remove(k@)) by {
                        assert forall|key: Seq<char>| #[trigger] self@.dom().contains(key) <==> entries_map(old_s).remove(k@).dom().contains(key) by {
                            if has_key(s, key) {
                                let j = choose|j: int| 0 <= j < s.len() && s[j].0@ == key;
                                if j < i {
                                    assert(old_s[j].0@ == key);
                                } else {
                                    assert(old_s[j + 1].0@ == key);
                                }
                            }
                            if has_key(old_s, key) && key != k@ {
                                let j = choose|j: int| 0 <= j < old_s.len() && old_s[j].0@ == key;
                                if j < i {
                                    assert(s[j].0@ == key);
                                } else {
                                    assert(s[j - 1].0@ == key);
                                }
                            }
                        }
                        assert forall|key: Seq<char>| #[trigger] self@.dom().contains(key) implies self@[key] == entries_map(old_s).remove(k@)[key] by {
                            let j = choose|j: int| 0 <= j < s.len() && s[j].0@ == key;
                            lemma_entry_in_map(s, j);
                            if j < i {
                                lemma_entry_in_map(old_s, j);
                            } else {
                                lemma_entry_in_map(old_s, j + 1);
                            }
                        }
                    }
                }
            },
            None => {
                assert(self@ =~= old(self)@.remove(k@));
            },
        }
    }
}

impl<V> PathMap<V> {
    /// A reference to the value for `k`, if it has one.
    pub fn get_ref(&self, k: &String) -> (r: Option<&V>)
        requires
            self.wf(),
        ensures
            r is Some == self@.dom().contains(k@),
            r matches Some(v) ==> *v == self@[k@],
    {
        match self.find(k) {
            Some(i) => {
                proof {
                    lemma_entry_in_map(self.entries@, i as int);
                }
                Some(&self.entries[i].1)
            },
            None => None,
        }
    }
}

impl<V: Copy> PathMap<V> {
    /// The value for `k`, if it has one.
    pub fn get(&self, k: &String) -> (r: Option<V>)
        requires
            self.wf(),
        ensures
            r == (if self@.dom().contains(k@) { Some(self@[k@]) } else { None }),
    {
        match self.find(k) {
            Some(i) => {
                proof {
                    lemma_entry_in_map(self.entries@, i as int);
                }
                Some(self.entries[i].1)
            },
            None => None,
        }
    }
}

/// A set of paths; no path occurs twice.
pub struct PathSet {
    items: Vec<String>,
}

impl PathSet {
    /// No path occurs twice.
    pub closed spec fn wf(&self) -> bool {
        forall|i: int, j: int| 0 <= i < self.items@.len() && 0 <= j < self.items@.len() && i != j
            ==> self.items@[i]@ != self.items@[j]@
    }

    /// The set of paths.
    pub closed spec fn view(&self) -> Set<Seq<char>> {
        Set::new(|k: Seq<char>| exists|i: int| 0 <= i < self.items@.len() && self.items@[i]@ == k)
    }

    /// An empty set.
    pub fn new() -> (r: Self)
        ensures
            r@ == Set::<Seq<char>>::empty(),
            r.wf(),
    {
        let r = PathSet { items: Vec::new() };
        assert(r@ =~= Set::<Seq<char>>::empty());
        r
    }

    /// `true` if `k` is in the set.
    pub fn contains(&self, k: &String) -> (r: bool)
        ensures
            r == self@.contains(k@),
    {
        let n = self.items.len();
        let mut i: usize = 0;
        while i < n
            invariant
                n == self.items@.len(),
                i <= n,
                forall|j: int| 0 <= j < i ==> self.items@[j]@ != k@,
            decreases n - i,
        {
            if self.items[i] == *k {
                return true;
            }
            i = i + 1;
        }
        false
    }

    /// Add `k` to the set.
    pub fn insert(&mut self, k: String)
        requires
            old(self).wf(),
        ensures
            final(self).wf(),
            final(self)@ == old(self)@.insert(k@),
    {
        let ghost kv = k@;
        if !self.contains(&k) {
            self.items.push(k);
            assert(self.items@[self.items@.len() - 1]@ == kv);
        }
        assert(self@ =~= old(self)@.insert(kv)) by {
            assert forall|key: Seq<char>| #[trigger] self@.contains(key) implies old(self)@.insert(kv).contains(key) by {
                let j = choose|j: int| 0 <= j < self.items@.len() && self.items@[j]@ == key;
                if j < old(self).items@.len() {
                    assert(old(self).items@[j]@ == key);
                }
            }
            assert forall|key: Seq<char>| #[trigger] old(self)@.insert(kv).contains(key) implies self@.contains(key) by {
                if old(self)@.contains(key) {
                    let j = choose|j: int| 0 <= j < old(self).items@.len() && old(self).items@[j]@ == key;
                    assert(self.items@[j]@ == key);
                }
            }
        }
    }

    /// Remove every path.
    pub fn clear(&mut self)
        requires
            old(self).wf(),
        ensures
            final(self).wf(),
            final(self)@ == Set::<Seq<char>>::empty(),
    {
        self.items.clear();
        assert(self@ =~= Set::<Seq<char>>::empty());
    }

    /// `true` when the set has no path.
    pub fn is_empty(&self) -> (r: bool)
        ensures
            r == (self@ == Set::<Seq<char>>::empty()),
    {
        if self.items.len() == 0 {
            assert(self@ =~= Set::<Seq<char>>::empty());
            true
        } else {
            assert(self@.contains(self.items@[0]@));
            false
        }
    }
}

} // verus!
