//! Bounded result cache keyed by query fingerprints.
//!
//! A fixed-capacity map from fingerprint to computed result. Inserting a
//! fresh key into a full cache evicts the oldest entry; overwriting an
//! existing key keeps its place. Callers funnel access through one shared
//! handle, so the short critical sections serialize on a single lock held
//! by the surrounding context — no component inspects the storage directly.

use vstd::prelude::*;

verus! {

/// A bounded first-in-first-out cache from `u64` fingerprints to values.
pub struct ResultCache<V> {
    entries: Vec<(u64, V)>,
    capacity: usize,
}

impl<V> ResultCache<V> {
    /// The stored keys, oldest first.
    pub closed spec fn spec_keys(&self) -> Seq<u64> {
        self.entries@.map_values(|e: (u64, V)| e.0)
    }

    /// A value is stored under `k`.
    pub closed spec fn spec_has(&self, k: u64) -> bool {
        exists|i: int| 0 <= i < self.entries@.len() && (#[trigger] self.entries@[i]).0 == k
    }

    spec fn key_idx(&self, k: u64) -> int {
        choose|i: int| 0 <= i < self.entries@.len() && (#[trigger] self.entries@[i]).0 == k
    }

    /// The value stored under `k`, if any.
    pub closed spec fn spec_get(&self, k: u64) -> Option<V> {
        if self.spec_has(k) {
            Some(self.entries@[self.key_idx(k)].1)
        } else {
            None
        }
    }

    /// The number of stored entries.
    pub closed spec fn spec_len(&self) -> nat {
        self.entries@.len()
    }

    /// The configured capacity.
    pub closed spec fn spec_capacity(&self) -> nat {
        self.capacity as nat
    }

    /// The oldest stored key; meaningful only when the cache is not empty.
    pub closed spec fn spec_oldest(&self) -> u64 {
        self.entries@[0].0
    }

    /// Well-formed: keys unique, size within capacity, capacity positive.
    pub closed spec fn wf(&self) -> bool {
        &&& forall|i: int, j: int|
            0 <= i < j < self.entries@.len() ==> (#[trigger] self.entries@[i]).0 != (
            #[trigger] self.entries@[j]).0
        &&& self.entries@.len() <= self.capacity
        &&& self.capacity > 0
    }

    proof fn lemma_entry_at(&self, k: u64, i: int)
        requires
            self.wf(),
            0 <= i < self.entries@.len(),
            self.entries@[i].0 == k,
        ensures
            self.spec_has(k),
            self.key_idx(k) == i,
            self.spec_get(k) == Some(self.entries@[i].1),
    {
        assert(self.spec_has(k));
        let j = self.key_idx(k);
        if j != i {
            if j < i {
                assert(self.entries@[j].0 != self.entries@[i].0);
            } else {
                assert(self.entries@[i].0 != self.entries@[j].0);
            }
        }
    }

    /// Creates an empty cache of the given capacity.
    pub fn with_capacity(capacity: usize) -> (r: Self)
        requires
            capacity > 0,
        ensures
            r.wf(),
            r.spec_len() == 0,
            r.spec_capacity() == capacity,
            forall|k: u64| !(#[trigger] r.spec_has(k)),
    {
        ResultCache { entries: Vec::new(), capacity }
    }

    fn find_idx(&self, k: u64) -> (r: Option<usize>)
        ensures
            match r {
                Some(i) => i < self.entries@.len() && self.entries@[i as int].0 == k,
                None => !self.spec_has(k),
            },
    {
        let mut i: usize = 0;
        while i < self.entries.len()
            invariant
                i <= self.entries@.len(),
                forall|j: int| 0 <= j < i ==> (#[trigger] self.entries@[j]).0 != k,
            decreases self.entries@.len() - i,
        {
            if self.entries[i].0 == k {
                return Some(i);
            }
            i = i + 1;
        }
        None
    }

    /// Looks up the value stored under `k`.
    pub fn get(&self, k: u64) -> (r: Option<&V>)
        requires
            self.wf(),
        ensures
            match r {
                Some(v) => self.spec_get(k) == Some(*v),
                None => self.spec_get(k) is None,
            },
    {
        match self.find_idx(k) {
            Some(i) => {
                proof {
                    self.lemma_entry_at(k, i as int);
                }
                Some(&self.entries[i].1)
            },
            None => None,
        }
    }

    /// Stores `v` under `k`: an existing entry for `k` is overwritten in
    /// place; a fresh key goes to the back, evicting the oldest entry when
    /// the cache is full. Other keys keep their values — except the evicted
    /// oldest one, which is gone.
    pub fn set(&mut self, k: u64, v: V)
        requires
            old(self).wf(),
        ensures
            final(self).wf(),
            final(self).spec_capacity() == old(self).spec_capacity(),
            final(self).spec_get(k) == Some(v),
            old(self).spec_has(k) ==> {
                &&& final(self).spec_len() == old(self).spec_len()
                &&& forall|k2: u64|
                    k2 != k ==> #[trigger] final(self).spec_get(k2) == old(self).spec_get(k2)
            },
            !old(self).spec_has(k) && old(self).spec_len() < old(self).spec_capacity() ==> {
                &&& final(self).spec_len() == old(self).spec_len() + 1
                &&& forall|k2: u64|
                    k2 != k ==> #[trigger] final(self).spec_get(k2) == old(self).spec_get(k2)
            },
            !old(self).spec_has(k) && old(self).spec_len() == old(self).spec_capacity() ==> {
                &&& final(self).spec_len() == old(self).spec_len()
                &&& forall|k2: u64|
                    k2 != k && k2 != old(self).spec_oldest() ==> #[trigger] final(self).spec_get(
                        k2,
                    ) == old(self).spec_get(k2)
                &&& old(self).spec_oldest() != k ==> final(self).spec_get(
                    old(self).spec_oldest(),
                ) is None
            },
    {
        let ghost pre = *self;
        match self.find_idx(k) {
            Some(i) => {
                proof {
                    pre.lemma_entry_at(k, i as int);
                }
                self.entries[i] = (k, v);
                proof {
                    assert(self.entries@ =~= pre.entries@.update(i as int, (k, v)));
                    assert forall|a: int, b: int|
                        0 <= a < b < self.entries@.len() implies (#[trigger] self.entries@[a]).0
                        != (#[trigger] self.entries@[b]).0 by {
                        assert(pre.entries@[a].0 != pre.entries@[b].0);
                    }
                    self.lemma_entry_at(k, i as int);
                    assert forall|k2: u64| k2 != k implies #[trigger] self.spec_get(k2)
                        == pre.spec_get(k2) by {
                        if pre.spec_has(k2) {
                            let j = choose|j: int|
                                0 <= j < pre.entries@.len() && (#[trigger] pre.entries@[j]).0 == k2;
                            pre.lemma_entry_at(k2, j);
                            assert(self.entries@[j].0 == k2);
                            self.lemma_entry_at(k2, j);
                        } else {
                            if self.spec_has(k2) {
                                let j = choose|j: int|
                                    0 <= j < self.entries@.len() && (#[trigger] self.entries@[j]).0
                                        == k2;
                                assert(pre.entries@[j].0 == k2);
                            }
                        }
                    }
                }
            },
            None => {
                let evicting = self.entries.len() == self.capacity;
                if evicting {
                    let _old = self.entries.remove(0);
                }
                let ghost mid = *self;
                self.entries.push((k, v));
                proof {
                    if evicting {
                        assert(mid.entries@ =~= pre.entries@.skip(1));
                    } else {
                        assert(mid.entries@ == pre.entries@);
                    }
                    let nlen = mid.entries@.len();
                    assert(self.entries@ =~= mid.entries@.push((k, v)));
                    assert forall|a: int, b: int|
                        0 <= a < b < self.entries@.len() implies (#[trigger] self.entries@[a]).0
                        != (#[trigger] self.entries@[b]).0 by {
                        if b < nlen {
                            if evicting {
                                assert(mid.entries@[a] == pre.entries@[a + 1]);
                                assert(mid.entries@[b] == pre.entries@[b + 1]);
                                assert(pre.entries@[a + 1].0 != pre.entries@[b + 1].0);
                            } else {
                                assert(pre.entries@[a].0 != pre.entries@[b].0);
                            }
                        } else {
                            let a0 = if evicting {
                                a + 1
                            } else {
                                a
                            };
                            assert(pre.entries@[a0] == mid.entries@[a]);
                            if pre.spec_has(k) {
                            }
                            if mid.entries@[a].0 == k {
                                assert(pre.entries@[a0].0 == k);
                                assert(pre.spec_has(k));
                            }
                        }
                    }
                    assert(self.wf());
                    self.lemma_entry_at(k, nlen as int);
                    assert forall|k2: u64| k2 != k && (!evicting || k2 != pre.spec_oldest())
                        implies #[trigger] self.spec_get(k2) == pre.spec_get(k2) by {
                        if pre.spec_has(k2) {
                            let j = choose|j: int|
                                0 <= j < pre.entries@.len() && (#[trigger] pre.entries@[j]).0 == k2;
                            pre.lemma_entry_at(k2, j);
                            if evicting {
                                assert(j != 0);
                                assert(self.entries@[j - 1] == pre.entries@[j]);
                                self.lemma_entry_at(k2, j - 1);
                            } else {
                                assert(self.entries@[j] == pre.entries@[j]);
                                self.lemma_entry_at(k2, j);
                            }
                        } else {
                            if self.spec_has(k2) {
                                let j = choose|j: int|
                                    0 <= j < self.entries@.len() && (#[trigger] self.entries@[j]).0
                                        == k2;
                                if j < nlen {
                                    if evicting {
                                        assert(pre.entries@[j + 1].0 == k2);
                                    } else {
                                        assert(pre.entries@[j].0 == k2);
                                    }
                                }
                            }
                        }
                    }
                    if evicting && pre.spec_oldest() != k {
                        if self.spec_has(pre.spec_oldest()) {
                            let j = choose|j: int|
                                0 <= j < self.entries@.len() && (#[trigger] self.entries@[j]).0
                                    == pre.spec_oldest();
                            if j < nlen {
                                assert(pre.entries@[j + 1].0 == pre.spec_oldest());
                                assert(pre.entries@[0].0 == pre.spec_oldest());
                            }
                        }
                    }
                }
            },
        }
    }
}

} // verus!
