//! A small map keyed by digests, kept as two parallel lists in insertion order.

use vstd::prelude::*;
use crate::types::H256;

verus! {

/// A finite map from digests to values. No key occurs twice.
pub struct Table<V> {
    pub keys: Vec<H256>,
    pub vals: Vec<V>,
}

impl<V> Table<V> {
    /// The lists go in step and no key occurs twice.
    pub open spec fn wf(&self) -> bool {
        &&& self.keys@.len() == self.vals@.len()
        &&& self.keys@.no_duplicates()
    }

    /// Whether `key` has a value.
    pub open spec fn has(&self, key: H256) -> bool {
        self.keys@.contains(key)
    }

    /// The value kept for `key`, where it has one.
    pub open spec fn at(&self, key: H256) -> V {
        self.vals@[self.keys@.index_of(key)]
    }

    /// The table as a mathematical map.
    pub open spec fn map(&self) -> Map<H256, V> {
        Map::new(|k: H256| self.has(k), |k: H256| self.at(k))
    }

    /// An empty table.
    pub fn new() -> (t: Self)
        ensures
            t.wf(),
            t.map() == Map::<H256, V>::empty(),
    {
        let t = Table { keys: Vec::new(), vals: Vec::new() };
        t
    }

    /// Where `key` stands in the lists.
    pub fn position(&self, key: H256) -> (r: Option<usize>)
        requires
            self.wf(),
        ensures
            r is Some <==> self.has(key),
            r is Some ==> r->0 < self.keys@.len() && self.keys@[r->0 as int] == key
                && self.keys@.index_of(key) == r->0,
    {
        let mut i: usize = 0;
        while i < self.keys.len()
            invariant
                self.wf(),
                i <= self.keys@.len(),
                forall|j: int| 0 <= j < i ==> self.keys@[j] != key,
            decreases self.keys@.len() - i,
        {
            if self.keys[i] == key {
                return Some(i);
            }
            i += 1;
        }
        None
    }

    /// Whether `key` has a value.
    pub fn contains_key(&self, key: H256) -> (b: bool)
        requires
            self.wf(),
        ensures
            b == self.has(key),
            b == self.map().dom().contains(key),
    {
        self.position(key).is_some()
    }

    /// The value kept for `key`.
    pub fn get(&self, key: H256) -> (r: Option<&V>)
        requires
            self.wf(),
        ensures
            r is Some <==> self.map().dom().contains(key),
            r is Some ==> *r->0 == self.map()[key],
    {
        match self.position(key) {
            Some(i) => Some(&self.vals[i]),
            None => None,
        }
    }

    /// Keep `val` for `key`, in place of what was kept for it before.
    pub fn insert(&mut self, key: H256, val: V)
        requires
            old(self).wf(),
        ensures
            final(self).wf(),
            final(self).map() == old(self).map().insert(key, val),
    {
        match self.position(key) {
            Some(i) => {
                self.vals.set(i, val);
            },
            None => {
                self.keys.push(key);
                self.vals.push(val);
                proof {
                    let n = old(self).keys@.len() as int;
                    assert(self.keys@[n] == key);
                    assert forall|k: H256| #[trigger] self.has(k) <==> (k == key || old(self).has(k)) by {
                        if old(self).has(k) {
                            let j = old(self).keys@.index_of(k);
                            assert(self.keys@[j] == k);
                        }
                    }
                }
            },
        }
    }

    /// Forget `key`, handing back what was kept for it.
    pub fn remove(&mut self, key: H256) -> (r: Option<V>)
        requires
            old(self).wf(),
        ensures
            final(self).wf(),
            final(self).map() == old(self).map().remove(key),
            r is Some <==> old(self).map().dom().contains(key),
            r is Some ==> r->0 == old(self).map()[key],
    {
        match self.position(key) {
            Some(i) => {
                self.keys.remove(i);
                let v = self.vals.remove(i);
                proof {
                    let ok = old(self).keys@;
                    assert(self.keys@.no_duplicates());
                    assert forall|k: H256| #[trigger] self.has(k) <==> (k != key && old(self).has(k)) by {
                        if k != key && old(self).has(k) {
                            let j = ok.index_of(k);
                            let j2 = if j < i { j } else { j - 1 };
                            assert(self.keys@[j2] == k);
                        }
                    }
                }
                Some(v)
            },
            None => None,
        }
    }
}

} // verus!
