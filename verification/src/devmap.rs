//! A map with devices for keys.

use crate::ids::DeviceId;
use vstd::prelude::*;

verus! {

/// A map with devices for keys. The keys stand in the order in which they came
/// in.
#[derive(Debug)]
pub struct DeviceMap<T> {
    keys: Vec<DeviceId>,
    values: Vec<T>,
}

impl<T> View for DeviceMap<T> {
    type V = Map<DeviceId, T>;

    closed spec fn view(&self) -> Map<DeviceId, T> {
        Map::new(
            |k: DeviceId| self.keys@.contains(k),
            |k: DeviceId| self.values@[self.keys@.index_of(k)],
        )
    }
}

impl<T> DeviceMap<T> {
    /// No key stands twice, and each has a value.
    pub closed spec fn wf(self) -> bool {
        &&& self.keys@.len() == self.values@.len()
        &&& forall|i: int, j: int|
            0 <= i < j < self.keys@.len() ==> self.keys@[i] != self.keys@[j]
    }

    /// The keys in their order.
    pub closed spec fn order(self) -> Seq<DeviceId> {
        self.keys@
    }

    proof fn lemma_at(&self, i: int)
        requires
            self.wf(),
            0 <= i < self.keys@.len(),
        ensures
            self@.dom().contains(self.keys@[i]),
            self@[self.keys@[i]] == self.values@[i],
    {
        let k = self.keys@[i];
        assert(self.keys@.contains(k));
        let j = self.keys@.index_of(k);
        assert(0 <= j < self.keys@.len() && self.keys@[j] == k);
        assert(j == i);
    }

    pub fn new() -> (m: Self)
        ensures
            m.wf(),
            m@ == Map::<DeviceId, T>::empty(),
            m.order().len() == 0,
    {
        let m = DeviceMap { keys: Vec::new(), values: Vec::new() };
        assert(m@ =~= Map::<DeviceId, T>::empty());
        m
    }

    pub fn len(&self) -> (n: usize)
        requires
            self.wf(),
        ensures
            n == self.order().len(),
    {
        self.keys.len()
    }

    pub fn is_empty(&self) -> (b: bool)
        requires
            self.wf(),
        ensures
            b == (self@.dom() == Set::<DeviceId>::empty()),
    {
        proof {
            if self.keys@.len() > 0 {
                self.lemma_at(0);
            } else {
                assert(self@.dom() =~= Set::<DeviceId>::empty());
            }
        }
        self.keys.len() == 0
    }

    fn position(&self, k: DeviceId) -> (r: Option<usize>)
        requires
            self.wf(),
        ensures
            match r {
                Some(i) => i < self.keys@.len() && self.keys@[i as int] == k,
                None => !self.keys@.contains(k),
            },
    {
        let mut i: usize = 0;
        while i < self.keys.len()
            invariant
                0 <= i <= self.keys.len(),
                forall|j: int| 0 <= j < i ==> self.keys@[j] != k,
            decreases self.keys.len() - i,
        {
            if self.keys[i] == k {
                return Some(i);
            }
            i = i + 1;
        }
        None
    }

    pub fn contains(&self, k: DeviceId) -> (b: bool)
        requires
            self.wf(),
        ensures
            b == self@.dom().contains(k),
    {
        match self.position(k) {
            Some(i) => {
                proof {
                    self.lemma_at(i as int);
                }
                true
            },
            None => false,
        }
    }

    pub fn get(&self, k: DeviceId) -> (r: Option<&T>)
        requires
            self.wf(),
        ensures
            r == if self@.dom().contains(k) {
                Some(&self@[k])
            } else {
                None
            },
    {
        match self.position(k) {
            Some(i) => {
                proof {
                    self.lemma_at(i as int);
                }
                Some(&self.values[i])
            },
            None => None,
        }
    }

    /// The key and the value in one place of the order.
    pub fn at(&self, i: usize) -> (r: (DeviceId, &T))
        requires
            self.wf(),
            i < self.order().len(),
        ensures
            r.0 == self.order()[i as int],
            self@.dom().contains(r.0),
            *r.1 == self@[r.0],
    {
        proof {
            self.lemma_at(i as int);
        }
        (self.keys[i], &self.values[i])
    }

    /// Puts in a value, in place of an earlier one for the same key.
    pub fn insert(&mut self, k: DeviceId, v: T)
        requires
            old(self).wf(),
        ensures
            final(self).wf(),
            final(self)@ == old(self)@.insert(k, v),
            final(self).order() == if old(self)@.dom().contains(k) {
                old(self).order()
            } else {
                old(self).order().push(k)
            },
    {
        let ghost before = *self;
        match self.position(k) {
            Some(i) => {
                self.values.set(i, v);
                proof {
                    assert(self.wf());
                    assert forall|x: DeviceId| #[trigger]
                        self@.dom().contains(x) implies self@[x] == before@.insert(k, v)[x] by {
                        let j = self.keys@.index_of(x);
                        assert(0 <= j < self.keys@.len() && self.keys@[j] == x);
                        self.lemma_at(j);
                        before.lemma_at(j);
                        if x == k {
                            assert(j == i);
                        }
                    }
                    before.lemma_at(i as int);
                    assert(self@ =~= before@.insert(k, v));
                }
            },
            None => {
                self.keys.push(k);
                self.values.push(v);
                proof {
                    assert(self.wf());
                    assert forall|x: DeviceId|
                        self@.dom().contains(x) == before@.insert(k, v).dom().contains(x) by {
                        if before.keys@.contains(x) {
                            let j = choose|j: int|
                                0 <= j < before.keys@.len() && before.keys@[j] == x;
                            assert(self.keys@[j] == x);
                        }
                        if x == k {
                            assert(self.keys@[before.keys@.len() as int] == x);
                        }
                        if self.keys@.contains(x) && x != k {
                            let j = choose|j: int| 0 <= j < self.keys@.len() && self.keys@[j] == x;
                            assert(before.keys@[j] == x);
                        }
                    }
                    assert forall|x: DeviceId| #[trigger]
                        self@.dom().contains(x) implies self@[x] == before@.insert(k, v)[x] by {
                        let j = self.keys@.index_of(x);
                        assert(0 <= j < self.keys@.len() && self.keys@[j] == x);
                        self.lemma_at(j);
                        if x != k {
                            assert(before.keys@[j] == x);
                            before.lemma_at(j);
                        } else {
                            assert(j == before.keys@.len());
                        }
                    }
                    assert(self@ =~= before@.insert(k, v));
                }
            },
        }
    }

    /// Takes a key out.
    pub fn remove(&mut self, k: DeviceId)
        requires
            old(self).wf(),
        ensures
            final(self).wf(),
            final(self)@ == old(self)@.remove(k),
    {
        let ghost before = *self;
        match self.position(k) {
            Some(i) => {
                self.keys.remove(i);
                self.values.remove(i);
                proof {
                    let p = i as int;
                    assert(self.keys@ =~= before.keys@.remove(p));
                    assert(self.values@ =~= before.values@.remove(p));
                    assert forall|a: int, b: int| 0 <= a < b < self.keys@.len() implies self.keys@[a]
                        != self.keys@[b] by {
                        let x = if a < p {
                            a
                        } else {
                            a + 1
                        };
                        let y = if b < p {
                            b
                        } else {
                            b + 1
                        };
                        assert(before.keys@[x] != before.keys@[y]);
                    }
                    assert(self.wf());
                    assert forall|x: DeviceId|
                        self@.dom().contains(x) == before@.remove(k).dom().contains(x) by {
                        if before.keys@.contains(x) && x != k {
                            let j = choose|j: int|
                                0 <= j < before.keys@.len() && before.keys@[j] == x;
                            if j < p {
                                assert(self.keys@[j] == x);
                            } else {
                                assert(self.keys@[j - 1] == x);
                            }
                        }
                        if self.keys@.contains(x) {
                            let j = choose|j: int| 0 <= j < self.keys@.len() && self.keys@[j] == x;
                            if j < p {
                                assert(before.keys@[j] == x);
                            } else {
                                assert(before.keys@[j + 1] == x);
                            }
                        }
                    }
                    assert forall|x: DeviceId| #[trigger]
                        self@.dom().contains(x) implies self@[x] == before@.remove(k)[x] by {
                        let j = self.keys@.index_of(x);
                        assert(0 <= j < self.keys@.len() && self.keys@[j] == x);
                        self.lemma_at(j);
                        if j < p {
                            before.lemma_at(j);
                        } else {
                            before.lemma_at(j + 1);
                        }
                    }
                    assert(self@ =~= before@.remove(k));
                }
            },
            None => {
                assert(self@ =~= before@.remove(k));
            },
        }
    }
}

} // verus!
