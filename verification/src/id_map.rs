//! A map keyed by an integer identifier, the content of an integer-keyed HAMT or AMT.

use vstd::prelude::*;

verus! {

/// An integer key that can be compared in executable code.
pub trait IntKey: Copy + Sized {
    fn key_eq(&self, other: &Self) -> (res: bool)
        ensures
            res == (*self == *other);
}

impl IntKey for u64 {
    fn key_eq(&self, other: &Self) -> (res: bool) {
        *self == *other
    }
}

impl IntKey for i64 {
    fn key_eq(&self, other: &Self) -> (res: bool) {
        *self == *other
    }
}

/// A finite map from integer keys to values.
#[derive(Debug)]
pub struct IdMap<K, V> {
    keys: Vec<K>,
    vals: Vec<V>,
}

impl<K: IntKey, V> IdMap<K, V> {
    /// The byte encodings of the stored keys, in storage order.
    pub closed spec fn key_seq(&self) -> Seq<K> {
        self.keys@.map_values(|a: K| a)
    }

    /// The stored values, in storage order.
    pub closed spec fn val_seq(&self) -> Seq<V> {
        self.vals@
    }

    /// Keys and values line up and no key occurs twice.
    pub closed spec fn wf(&self) -> bool {
        &&& self.keys@.len() == self.vals@.len()
        &&& forall|i: int, j: int| 0 <= i < j < self.keys@.len() ==> (#[trigger] self.keys@[i]) != (#[trigger] self.keys@[j])
    }

    /// The map that the entries represent.
    pub closed spec fn map(&self) -> Map<K, V> {
        Map::new(
            |k: K| self.key_seq().contains(k),
            |k: K| self.vals@[choose|i: int| 0 <= i < self.key_seq().len() && self.key_seq()[i] == k],
        )
    }

    proof fn lemma_lookup(&self, i: int)
        requires
            self.wf(),
            0 <= i < self.keys@.len(),
        ensures
            self.map().dom().contains(self.keys@[i]),
            self.map()[self.keys@[i]] == self.vals@[i],
    {
        assert(self.key_seq()[i] == self.keys@[i]);
        let j = choose|j: int| 0 <= j < self.key_seq().len() && self.key_seq()[j] == self.keys@[i];
        assert(self.key_seq()[j] == self.keys@[j]);
        if j < i {
            assert(self.keys@[j] != self.keys@[i]);
        } else if i < j {
            assert(self.keys@[i] != self.keys@[j]);
        }
    }

    proof fn lemma_absent(&self, k: K)
        requires
            forall|j: int| 0 <= j < self.keys@.len() ==> (#[trigger] self.keys@[j]) != k,
        ensures
            !self.map().dom().contains(k),
    {
        if self.key_seq().contains(k) {
            let j = choose|j: int| 0 <= j < self.key_seq().len() && self.key_seq()[j] == k;
            assert(self.keys@[j] == k);
        }
    }

    /// An empty map.
    pub fn new() -> (res: IdMap<K, V>)
        ensures
            res.wf(),
            res.map() == Map::<K, V>::empty(),
            res.val_seq() == Seq::<V>::empty(),
    {
        let res = IdMap { keys: Vec::new(), vals: Vec::new() };
        assert(res.map() =~= Map::<K, V>::empty());
        res
    }

    /// The number of entries.
    pub fn len(&self) -> (res: usize)
        requires
            self.wf(),
        ensures
            res == self.val_seq().len(),
    {
        self.vals.len()
    }

    /// The value at storage position `i`.
    pub fn value_at(&self, i: usize) -> (res: &V)
        requires
            self.wf(),
            i < self.val_seq().len(),
        ensures
            *res == self.val_seq()[i as int],
    {
        &self.vals[i]
    }

    /// The key at storage position `i`.
    pub fn key_at(&self, i: usize) -> (res: K)
        requires
            self.wf(),
            i < self.val_seq().len(),
        ensures
            res == self.key_seq()[i as int],
            self.map().dom().contains(res),
            self.map()[res] == self.val_seq()[i as int],
    {
        proof { self.lemma_lookup(i as int); }
        self.keys[i]
    }

    /// The keys and values line up, no key is stored twice, and the map's keys are exactly
    /// the stored ones, each mapped to the value stored beside it.
    pub proof fn lemma_entries(&self)
        requires
            self.wf(),
        ensures
            self.key_seq().len() == self.val_seq().len(),
            forall|i: int, j: int| 0 <= i < j < self.key_seq().len() ==> self.key_seq()[i] != self.key_seq()[j],
            forall|k: K| #[trigger] self.map().dom().contains(k) <==> exists|i: int| 0 <= i < self.key_seq().len() && self.key_seq()[i] == k,
            forall|i: int| 0 <= i < self.key_seq().len() ==> self.map()[#[trigger] self.key_seq()[i]] == self.val_seq()[i],
    {
        assert forall|i: int| 0 <= i < self.key_seq().len() implies self.map()[#[trigger] self.key_seq()[i]] == self.val_seq()[i] by {
            self.lemma_lookup(i);
        }
        assert forall|k: K| #[trigger] self.map().dom().contains(k) implies exists|i: int| 0 <= i < self.key_seq().len() && self.key_seq()[i] == k by {
            let i = choose|i: int| 0 <= i < self.key_seq().len() && self.key_seq()[i] == k;
        }
    }

    /// Finds the storage index of `key`.
    fn find(&self, key: K) -> (res: Option<usize>)
        requires
            self.wf(),
        ensures
            res matches Some(i) ==> i < self.keys@.len() && self.keys@[i as int] == key,
            res is None ==> forall|j: int| 0 <= j < self.keys@.len() ==> (#[trigger] self.keys@[j]) != key,
    {
        let mut i: usize = 0;
        while i < self.keys.len()
            invariant
                i <= self.keys.len(),
                forall|j: int| 0 <= j < i ==> (#[trigger] self.keys@[j]) != key,
            decreases self.keys.len() - i,
        {
            if self.keys[i].key_eq(&key) {
                return Some(i);
            }
            i = i + 1;
        }
        None
    }

    /// The value stored under `key`, if any.
    pub fn get(&self, key: K) -> (res: Option<&V>)
        requires
            self.wf(),
        ensures
            res is Some <==> self.map().dom().contains(key),
            res matches Some(v) ==> *v == self.map()[key],
    {
        match self.find(key) {
            Some(i) => {
                proof { self.lemma_lookup(i as int); }
                Some(&self.vals[i])
            },
            None => {
                proof { self.lemma_absent(key); }
                None
            },
        }
    }

    /// Stores `value` under `key`, replacing any prior value.
    pub fn set(&mut self, key: K, value: V)
        requires
            old(self).wf(),
        ensures
            final(self).wf(),
            final(self).map() == old(self).map().insert(key, value),
            old(self).map().dom().contains(key) ==> final(self).val_seq().len() == old(self).val_seq().len(),
            old(self).map().dom().contains(key) ==> exists|i: int| 0 <= i < old(self).val_seq().len()
                && old(self).map()[key] == old(self).val_seq()[i]
                && final(self).val_seq() == old(self).val_seq().update(i, value),
            !old(self).map().dom().contains(key) ==> final(self).val_seq() == old(self).val_seq().push(value),
    {
        match self.find(key) {
            Some(i) => {
                proof { self.lemma_lookup(i as int); }
                let ghost before = *self;
                self.vals.set(i, value);
                proof {
                    assert(self.key_seq() == before.key_seq());
                    assert forall|k: K| #[trigger] self.map().dom().contains(k) == before.map().insert(key, value).dom().contains(k) by {}
                    assert forall|k: K| self.map().dom().contains(k) implies #[trigger] self.map()[k] == before.map().insert(key, value)[k] by {
                        let j = choose|j: int| 0 <= j < self.key_seq().len() && self.key_seq()[j] == k;
                        assert(self.key_seq()[j] == self.keys@[j]);
                        self.lemma_lookup(j);
                        if j != i {
                            before.lemma_lookup(j);
                        }
                    }
                    assert(self.map() =~= before.map().insert(key, value));
                    assert(before.map()[key] == before.val_seq()[i as int]);
                    assert(self.val_seq() == before.val_seq().update(i as int, value));
                }
            },
            None => {
                proof { self.lemma_absent(key); }
                let ghost before = *self;
                self.keys.push(key);
                self.vals.push(value);
                proof {
                    let n = before.keys@.len() as int;
                    assert(self.keys@[n] == key);
                    assert forall|i: int, j: int| 0 <= i < j < self.keys@.len() implies (#[trigger] self.keys@[i]) != (#[trigger] self.keys@[j]) by {
                        if j == n {
                            assert(before.keys@[i] == self.keys@[i]);
                        } else {
                            assert(before.keys@[i] == self.keys@[i]);
                            assert(before.keys@[j] == self.keys@[j]);
                        }
                    }
                    assert(self.key_seq() =~= before.key_seq().push(key));
                    assert forall|k: K| #[trigger] self.map().dom().contains(k) == before.map().insert(key, value).dom().contains(k) by {
                        if self.key_seq().contains(k) {
                            let j = choose|j: int| 0 <= j < self.key_seq().len() && self.key_seq()[j] == k;
                            if j < n {
                                assert(before.key_seq()[j] == k);
                            }
                        }
                        if before.key_seq().contains(k) {
                            let j = choose|j: int| 0 <= j < before.key_seq().len() && before.key_seq()[j] == k;
                            assert(self.key_seq()[j] == k);
                        }
                        if k == key {
                            assert(self.key_seq()[n] == k);
                        }
                    }
                    assert forall|k: K| self.map().dom().contains(k) implies #[trigger] self.map()[k] == before.map().insert(key, value)[k] by {
                        let j = choose|j: int| 0 <= j < self.key_seq().len() && self.key_seq()[j] == k;
                        assert(self.key_seq()[j] == self.keys@[j]);
                        self.lemma_lookup(j);
                        if j < n {
                            assert(before.keys@[j] == self.keys@[j]);
                            before.lemma_lookup(j);
                        }
                    }
                    assert(self.map() =~= before.map().insert(key, value));
                }
            },
        }
    }

    /// Removes the entry under `key`, returning its prior value.
    pub fn delete(&mut self, key: K) -> (res: Option<V>)
        requires
            old(self).wf(),
        ensures
            final(self).wf(),
            res == (if old(self).map().dom().contains(key) { Some(old(self).map()[key]) } else { None::<V> }),
            final(self).map() == old(self).map().remove(key),
            res is None ==> final(self).val_seq() == old(self).val_seq(),
            res is Some ==> exists|i: int| 0 <= i < old(self).val_seq().len()
                && old(self).map()[key] == old(self).val_seq()[i]
                && final(self).val_seq() == old(self).val_seq().remove(i),
    {
        match self.find(key) {
            Some(i) => {
                proof { self.lemma_lookup(i as int); }
                let ghost before = *self;
                let _ = self.keys.remove(i);
                let v = self.vals.remove(i);
                proof {
                    assert forall|a: int, b: int| 0 <= a < b < self.keys@.len() implies (#[trigger] self.keys@[a]) != (#[trigger] self.keys@[b]) by {
                        let a2 = if a < i { a } else { a + 1 };
                        let b2 = if b < i { b } else { b + 1 };
                        assert(self.keys@[a] == before.keys@[a2]);
                        assert(self.keys@[b] == before.keys@[b2]);
                        assert(before.keys@[a2] != before.keys@[b2]);
                    }
                    assert forall|k: K| #[trigger] self.map().dom().contains(k) == before.map().remove(key).dom().contains(k) by {
                        if self.map().dom().contains(k) {
                            let j = choose|j: int| 0 <= j < self.key_seq().len() && self.key_seq()[j] == k;
                            let j2 = if j < i { j } else { j + 1 };
                            assert(self.key_seq()[j] == self.keys@[j]);
                            assert(self.keys@[j] == before.keys@[j2]);
                            before.lemma_lookup(j2);
                            assert(before.keys@[j2] != before.keys@[i as int]);
                        }
                        if before.map().remove(key).dom().contains(k) {
                            let j2 = choose|j: int| 0 <= j < before.key_seq().len() && before.key_seq()[j] == k;
                            assert(before.key_seq()[j2] == before.keys@[j2]);
                            assert(j2 != i);
                            let j = if j2 < i { j2 } else { j2 - 1 };
                            assert(self.keys@[j] == before.keys@[j2]);
                            assert(self.key_seq()[j] == self.keys@[j]);
                        }
                    }
                    assert forall|k: K| self.map().dom().contains(k) implies #[trigger] self.map()[k] == before.map().remove(key)[k] by {
                        let j = choose|j: int| 0 <= j < self.key_seq().len() && self.key_seq()[j] == k;
                        let j2 = if j < i { j } else { j + 1 };
                        assert(self.key_seq()[j] == self.keys@[j]);
                        assert(self.keys@[j] == before.keys@[j2]);
                        self.lemma_lookup(j);
                        before.lemma_lookup(j2);
                    }
                    assert(self.map() =~= before.map().remove(key));
                    assert(self.val_seq() =~= before.val_seq().remove(i as int));
                }
                Some(v)
            },
            None => {
                proof {
                    self.lemma_absent(key);
                    assert(self.map().remove(key) =~= self.map());
                }
                None
            },
        }
    }
}

} // verus!
