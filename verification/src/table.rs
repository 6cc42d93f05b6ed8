//! A small map keyed by integers, kept as a vector of entries in insertion
//! order. The daemon's tables hold a handful of windows and outputs, so a
//! linear scan is all they need, and the order of the entries is the order
//! in which results that list several keys come out.

use vstd::prelude::*;

verus! {

/// A finite map from `u64` keys to `V`, viewed as a [`Map`].
pub struct Table<V> {
    entries: Vec<(u64, V)>,
    map: Ghost<Map<u64, V>>,
}

impl<V: Copy> View for Table<V> {
    type V = Map<u64, V>;

    closed spec fn view(&self) -> Map<u64, V> {
        self.map@
    }
}

impl<V: Copy> Table<V> {
    /// The keys in table order.
    pub closed spec fn order(&self) -> Seq<u64> {
        self.entries@.map_values(|e: (u64, V)| e.0)
    }

    /// The entries agree with the map: keys are distinct, and a key is in
    /// the map exactly when an entry holds it, with the entry's value.
    pub closed spec fn wf(&self) -> bool {
        &&& self.order().no_duplicates()
        &&& forall|i: int|
            0 <= i < self.entries@.len() ==> #[trigger] self.map@.contains_key(self.entries@[i].0)
                && self.map@[self.entries@[i].0] == self.entries@[i].1
        &&& forall|k: u64| #[trigger] self.map@.contains_key(k) ==> self.order().contains(k)
    }

    /// What a well-formed table's order says of its map.
    pub proof fn lemma_order(&self)
        requires
            self.wf(),
        ensures
            self.order().no_duplicates(),
            forall|k: u64| #[trigger] self@.contains_key(k) <==> self.order().contains(k),
    {
        assert forall|k: u64| #[trigger] self@.contains_key(k) <==> self.order().contains(k) by {
            if self.order().contains(k) {
                let i = choose|i: int| 0 <= i < self.order().len() && self.order()[i] == k;
                assert(self.map@.contains_key(self.entries@[i].0));
            }
        }
    }

    pub fn new() -> (t: Self)
        ensures
            t.wf(),
            t@ == Map::<u64, V>::empty(),
            t.order() == Seq::<u64>::empty(),
    {
        let t = Table { entries: Vec::new(), map: Ghost(Map::empty()) };
        assert(t.order() =~= Seq::<u64>::empty());
        t
    }

    /// Number of entries.
    pub fn len(&self) -> (n: usize)
        ensures
            n == self.order().len(),
    {
        self.entries.len()
    }

    /// The key of the `i`-th entry.
    pub fn key_at(&self, i: usize) -> (k: u64)
        requires
            i < self.order().len(),
        ensures
            k == self.order()[i as int],
    {
        self.entries[i].0
    }

    /// The position of `k` among the entries, if it has one.
    fn find(&self, k: u64) -> (r: Option<usize>)
        requires
            self.wf(),
        ensures
            match r {
                Some(i) => i < self.entries@.len() && self.entries@[i as int].0 == k,
                None => !self@.contains_key(k),
            },
    {
        let mut i: usize = 0;
        while i < self.entries.len()
            invariant
                self.wf(),
                i <= self.entries@.len(),
                forall|j: int| 0 <= j < i ==> self.entries@[j].0 != k,
            decreases self.entries@.len() - i,
        {
            if self.entries[i].0 == k {
                return Some(i);
            }
            i = i + 1;
        }
        proof {
            if self.map@.contains_key(k) {
                let j = choose|j: int| 0 <= j < self.order().len() && self.order()[j] == k;
                assert(self.entries@[j].0 == k);
            }
        }
        None
    }

    pub fn get(&self, k: u64) -> (r: Option<V>)
        requires
            self.wf(),
        ensures
            r == (if self@.contains_key(k) {
                Some(self@[k])
            } else {
                None
            }),
    {
        match self.find(k) {
            Some(i) => {
                let e = self.entries[i];
                Some(e.1)
            },
            None => None,
        }
    }

    pub fn contains_key(&self, k: u64) -> (r: bool)
        requires
            self.wf(),
        ensures
            r == self@.contains_key(k),
    {
        match self.find(k) {
            Some(_) => true,
            None => false,
        }
    }

    /// Set the value of `k`; a new key goes after all others.
    pub fn insert(&mut self, k: u64, v: V)
        requires
            old(self).wf(),
        ensures
            final(self).wf(),
            final(self)@ == old(self)@.insert(k, v),
            final(self).order() == (if old(self)@.contains_key(k) {
                old(self).order()
            } else {
                old(self).order().push(k)
            }),
    {
        proof {
            self.lemma_order();
        }
        match self.find(k) {
            Some(i) => {
                let ghost old_entries = self.entries@;
                self.entries.set(i, (k, v));
                self.map = Ghost(self.map@.insert(k, v));
                proof {
                    assert(self.order() =~= old(self).order());
                    assert forall|j: int|
                        0 <= j < self.entries@.len() implies #[trigger] self.map@.contains_key(
                        self.entries@[j].0,
                    ) && self.map@[self.entries@[j].0] == self.entries@[j].1 by {
                        if j != i {
                            assert(old(self).order()[j] != old(self).order()[i as int]);
                            assert(old_entries[j] == self.entries@[j]);
                            assert(old(self).map@.contains_key(old_entries[j].0));
                            assert(old_entries[j].0 != k);
                        } else {
                            assert(self.entries@[j] == (k, v));
                        }
                    }
                    assert forall|key: u64| #[trigger] self.map@.contains_key(key) implies self.order().contains(key) by {
                        if key != k {
                            assert(old(self)@.contains_key(key));
                            assert(old(self).order().contains(key));
                        } else {
                            assert(self.order()[i as int] == k);
                        }
                    }
                }
            },
            None => {
                let ghost old_entries = self.entries@;
                self.entries.push((k, v));
                self.map = Ghost(self.map@.insert(k, v));
                proof {
                    assert(self.order() =~= old(self).order().push(k));
                    assert(!old(self).order().contains(k));
                    assert forall|j: int|
                        0 <= j < self.entries@.len() implies #[trigger] self.map@.contains_key(
                        self.entries@[j].0,
                    ) && self.map@[self.entries@[j].0] == self.entries@[j].1 by {
                        if j < old_entries.len() {
                            assert(old_entries[j] == self.entries@[j]);
                            assert(old(self).order()[j] == old_entries[j].0);
                            assert(old_entries[j].0 != k);
                        }
                    }
                    assert forall|key: u64| #[trigger] self.map@.contains_key(key) implies self.order().contains(key) by {
                        if key != k {
                            assert(old(self)@.contains_key(key));
                            let j = choose|j: int|
                                0 <= j < old(self).order().len() && old(self).order()[j] == key;
                            assert(self.order()[j] == key);
                        } else {
                            assert(self.order()[old_entries.len() as int] == k);
                        }
                    }
                }
            },
        }
    }

    /// Remove `k`, returning its value if it had one. The other entries keep
    /// their order.
    pub fn remove(&mut self, k: u64) -> (r: Option<V>)
        requires
            old(self).wf(),
        ensures
            final(self).wf(),
            final(self)@ == old(self)@.remove(k),
            r == (if old(self)@.contains_key(k) {
                Some(old(self)@[k])
            } else {
                None
            }),
    {
        proof {
            self.lemma_order();
        }
        match self.find(k) {
            Some(i) => {
                let ghost old_entries = self.entries@;
                let e = self.entries.remove(i);
                self.map = Ghost(self.map@.remove(k));
                proof {
                    assert(self.order() =~= old(self).order().remove(i as int));
                    assert forall|a: int, b: int|
                        0 <= a < self.order().len() && 0 <= b < self.order().len() && a != b
                            implies self.order()[a] != self.order()[b] by {
                        let a2 = if a < i { a } else { a + 1 };
                        let b2 = if b < i { b } else { b + 1 };
                        assert(self.order()[a] == old(self).order()[a2]);
                        assert(self.order()[b] == old(self).order()[b2]);
                    }
                    assert forall|j: int|
                        0 <= j < self.entries@.len() implies #[trigger] self.map@.contains_key(
                        self.entries@[j].0,
                    ) && self.map@[self.entries@[j].0] == self.entries@[j].1 by {
                        let j2 = if j < i { j } else { j + 1 };
                        assert(self.entries@[j] == old_entries[j2]);
                        assert(old(self).order()[j2] != old(self).order()[i as int]);
                        assert(old(self).map@.contains_key(old_entries[j2].0));
                    }
                    assert forall|key: u64| #[trigger] self.map@.contains_key(key) implies self.order().contains(key) by {
                        assert(old(self)@.contains_key(key));
                        let j = choose|j: int|
                            0 <= j < old(self).order().len() && old(self).order()[j] == key;
                        assert(j != i);
                        let j2 = if j < i { j } else { j - 1 };
                        assert(self.order()[j2] == key);
                    }
                    assert(old(self).map@.contains_key(old_entries[i as int].0));
                }
                Some(e.1)
            },
            None => {
                proof {
                    assert(self.map@ =~= self.map@.remove(k));
                }
                None
            },
        }
    }
}

} // verus!
