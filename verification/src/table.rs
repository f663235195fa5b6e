//! A small keyed table over a `Vec`, for keys that are not plain integers. No key
//! occurs twice; its view is a map.

use vstd::prelude::*;

verus! {

/// What can be a key: a value that can be compared.
pub trait Key: Copy {
    /// Whether two keys are the same value.
    fn same(&self, other: &Self) -> (r: bool)
        ensures
            r == (*self == *other),
    ;
}

/// A keyed table.
pub struct Table<K, V> {
    entries: Vec<(K, V)>,
}

impl<K: Key, V> View for Table<K, V> {
    type V = Map<K, V>;

    closed spec fn view(&self) -> Map<K, V> {
        Map::new(
            |k: K| exists|i: int| 0 <= i < self.entries@.len() && (#[trigger] self.entries@[i]).0 == k,
            |k: K|
                self.entries@[choose|i: int|
                    0 <= i < self.entries@.len() && (#[trigger] self.entries@[i]).0 == k].1,
        )
    }
}

impl<K: Key, V> Table<K, V> {
    /// No key occurs twice.
    pub closed spec fn wf(&self) -> bool {
        forall|i: int, j: int|
            0 <= i < j < self.entries@.len() ==> (#[trigger] self.entries@[i]).0 != (
            #[trigger] self.entries@[j]).0
    }

    /// The number of keys.
    pub closed spec fn count(&self) -> nat {
        self.entries@.len()
    }

    /// The count is the size of the map's domain.
    pub proof fn lemma_count(&self)
        requires
            self.wf(),
        ensures
            self@.dom().finite(),
            self.count() == self@.dom().len(),
    {
        let keys = Seq::new(self.entries@.len(), |i: int| self.entries@[i].0);
        assert(keys.no_duplicates());
        keys.unique_seq_to_set();
        assert(keys.to_set() =~= self@.dom()) by {
            assert forall|k: K| keys.to_set().contains(k) <==> self@.dom().contains(k) by {
                if keys.contains(k) {
                    let i = choose|i: int| 0 <= i < keys.len() && keys[i] == k;
                    assert(self.entries@[i].0 == k);
                }
                if self@.dom().contains(k) {
                    let i = choose|i: int|
                        0 <= i < self.entries@.len() && (#[trigger] self.entries@[i]).0 == k;
                    assert(keys[i] == k);
                }
            }
        }
    }

    proof fn lemma_entry(&self, i: int)
        requires
            self.wf(),
            0 <= i < self.entries@.len(),
        ensures
            self@.contains_key(self.entries@[i].0),
            self@[self.entries@[i].0] == self.entries@[i].1,
    {
        let k = self.entries@[i].0;
        let j = choose|j: int|
            0 <= j < self.entries@.len() && (#[trigger] self.entries@[j]).0 == k;
        assert(0 <= j < self.entries@.len() && self.entries@[j].0 == k);
        if i < j {
            assert(self.entries@[i].0 != self.entries@[j].0);
        } else if j < i {
            assert(self.entries@[j].0 != self.entries@[i].0);
        }
    }

    /// An empty table.
    pub fn new() -> (t: Self)
        ensures
            t.wf(),
            t@ == Map::<K, V>::empty(),
            t.count() == 0,
    {
        let t = Table { entries: Vec::new() };
        assert(t@ =~= Map::<K, V>::empty());
        t
    }

    /// The number of keys.
    pub fn len(&self) -> (n: usize)
        ensures
            n == self.count(),
    {
        self.entries.len()
    }

    fn position(&self, key: K) -> (r: Option<usize>)
        requires
            self.wf(),
        ensures
            r matches Some(i) ==> i < self.entries@.len() && self.entries@[i as int].0 == key,
            r is None ==> !self@.contains_key(key),
    {
        let mut i: usize = 0;
        while i < self.entries.len()
            invariant
                i <= self.entries@.len(),
                forall|k: int| 0 <= k < i ==> (#[trigger] self.entries@[k]).0 != key,
            decreases self.entries.len() - i,
        {
            if self.entries[i].0.same(&key) {
                return Some(i);
            }
            i += 1;
        }
        None
    }

    /// The value of a key.
    pub fn get(&self, key: K) -> (r: Option<&V>)
        requires
            self.wf(),
        ensures
            r is Some <==> self@.contains_key(key),
            r matches Some(v) ==> *v == self@[key],
    {
        match self.position(key) {
            Some(i) => {
                proof {
                    self.lemma_entry(i as int);
                }
                Some(&self.entries[i].1)
            },
            None => None,
        }
    }

    /// Set the value of a key.
    pub fn insert(&mut self, key: K, value: V)
        requires
            old(self).wf(),
        ensures
            final(self).wf(),
            final(self)@ == old(self)@.insert(key, value),
            final(self).count() == (if old(self)@.contains_key(key) {
                old(self).count()
            } else {
                old(self).count() + 1
            }),
    {
        let ghost before = *self;
        match self.position(key) {
            Some(i) => {
                proof {
                    self.lemma_entry(i as int);
                }
                self.entries.set(i, (key, value));
                assert(self.entries@ =~= before.entries@.update(i as int, (key, value)));
                assert(self.wf());
                assert(self@ =~= before@.insert(key, value)) by {
                    self.lemma_same_as_insert(before, i as int, key, value);
                }
            },
            None => {
                self.entries.push((key, value));
                assert(self.entries@ =~= before.entries@.push((key, value)));
                assert(self.wf()) by {
                    assert forall|i: int, j: int| 0 <= i < j < self.entries@.len() implies (
                    #[trigger] self.entries@[i]).0 != (#[trigger] self.entries@[j]).0 by {
                        if j == before.entries@.len() {
                            assert(before.entries@[i].0 == self.entries@[i].0);
                            if self.entries@[i].0 == key {
                                before.lemma_entry(i);
                            }
                        }
                    }
                }
                assert(self@ =~= before@.insert(key, value)) by {
                    self.lemma_same_as_insert(
                        before,
                        before.entries@.len() as int,
                        key,
                        value,
                    );
                }
            },
        }
    }

    proof fn lemma_same_as_insert(&self, before: Self, at: int, key: K, value: V)
        requires
            self.wf(),
            before.wf(),
            0 <= at < self.entries@.len(),
            self.entries@[at] == (key, value),
            before.entries@.len() <= self.entries@.len() <= before.entries@.len() + 1,
            self.entries@.len() == before.entries@.len() + 1 ==> at == before.entries@.len(),
            forall|i: int|
                0 <= i < before.entries@.len() && i != at ==> #[trigger] self.entries@[i]
                    == before.entries@[i],
            at < before.entries@.len() ==> before.entries@[at].0 == key,
        ensures
            self@ =~= before@.insert(key, value),
    {
        self.lemma_entry(at);
        assert forall|k: K| self@.contains_key(k) <==> before@.insert(key, value).contains_key(k) by {
            if self@.contains_key(k) {
                let i = choose|i: int|
                    0 <= i < self.entries@.len() && (#[trigger] self.entries@[i]).0 == k;
                if i != at {
                    assert(before.entries@[i].0 == k);
                }
            }
            if before@.contains_key(k) {
                let i = choose|i: int|
                    0 <= i < before.entries@.len() && (#[trigger] before.entries@[i]).0 == k;
                if i != at {
                    assert(self.entries@[i].0 == k);
                }
            }
        }
        assert forall|k: K| self@.contains_key(k) implies self@[k] == before@.insert(
            key,
            value,
        )[k] by {
            let i = choose|i: int|
                0 <= i < self.entries@.len() && (#[trigger] self.entries@[i]).0 == k;
            self.lemma_entry(i);
            if i != at {
                assert(self.entries@[i] == before.entries@[i]);
                before.lemma_entry(i);
                if k == key {
                    assert(self.entries@[i].0 == self.entries@[at].0);
                }
            }
        }
    }

    /// Forget all keys.
    pub fn clear(&mut self)
        ensures
            final(self).wf(),
            final(self)@ == Map::<K, V>::empty(),
            final(self).count() == 0,
    {
        self.entries.clear();
        assert(self@ =~= Map::<K, V>::empty());
    }
}

} // verus!
