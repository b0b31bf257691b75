//! A small map keyed by strings.
//!
//! The keys of the routing indices are subdomains and client ids, a handful
//! per process. The table keeps them in insertion order and compares keys
//! by their characters, so that what it holds can be stated as a `Map` from
//! character sequences to the views of the values.

use vstd::prelude::*;

verus! {

/// A map from strings to values of `V`.
pub struct Table<V: View> {
    keys: Vec<String>,
    values: Vec<V>,
    model: Ghost<Map<Seq<char>, V::V>>,
}

impl<V: View> Table<V> {
    /// The fields agree: every key stands once, and the model holds exactly
    /// the stored pairs.
    pub closed spec fn wf(&self) -> bool {
        &&& self.keys.len() == self.values.len()
        &&& forall|i: int, j: int|
            0 <= i < j < self.keys.len() ==> (#[trigger] self.keys[i])@ != (#[trigger] self.keys[j])@
        &&& forall|i: int|
            0 <= i < self.keys.len() ==> self.model@.contains_key((#[trigger] self.keys[i])@)
                && self.model@[self.keys[i]@] == self.values[i]@
        &&& forall|k: Seq<char>| #[trigger]
            self.model@.contains_key(k) ==> exists|i: int|
                0 <= i < self.keys.len() && (#[trigger] self.keys[i])@ == k
        &&& self.model@.dom().finite()
        &&& self.model@.dom().len() == self.keys.len()
    }

    /// What the table holds.
    pub closed spec fn view(&self) -> Map<Seq<char>, V::V> {
        self.model@
    }

    /// A table that holds nothing.
    pub fn new() -> (out: Table<V>)
        ensures
            out.wf(),
            out@ == Map::<Seq<char>, V::V>::empty(),
    {
        Table { keys: Vec::new(), values: Vec::new(), model: Ghost(Map::empty()) }
    }

    /// Number of keys.
    pub fn len(&self) -> (out: usize)
        requires
            self.wf(),
        ensures
            self@.dom().finite(),
            out == self@.dom().len(),
    {
        self.keys.len()
    }

    fn position(&self, key: &String) -> (out: Option<usize>)
        requires
            self.wf(),
        ensures
            match out {
                Some(i) => i < self.keys.len() && self.keys[i as int]@ == key@,
                None => !self@.contains_key(key@),
            },
    {
        let mut i: usize = 0;
        while i < self.keys.len()
            invariant
                i <= self.keys.len(),
                forall|j: int| 0 <= j < i ==> (#[trigger] self.keys[j])@ != key@,
            decreases self.keys.len() - i,
        {
            if self.keys[i] == *key {
                return Some(i);
            }
            i += 1;
        }
        None
    }

    /// The value filed under `key`, if there is one.
    pub fn get(&self, key: &String) -> (out: Option<&V>)
        requires
            self.wf(),
        ensures
            match out {
                Some(v) => self@.contains_key(key@) && self@[key@] == v@,
                None => !self@.contains_key(key@),
            },
    {
        match self.position(key) {
            Some(i) => Some(&self.values[i]),
            None => None,
        }
    }

    /// Files `value` under `key`, in place of what was filed there.
    pub fn insert(&mut self, key: String, value: V)
        requires
            old(self).wf(),
        ensures
            final(self).wf(),
            final(self)@ == old(self)@.insert(key@, value@),
    {
        let ghost k = key@;
        let ghost v = value@;
        match self.position(&key) {
            Some(i) => {
                self.values.set(i, value);
                proof {
                    self.model@ = self.model@.insert(k, v);
                    assert(self.model@.dom() =~= old(self).model@.dom());
                }
            },
            None => {
                self.keys.push(key);
                self.values.push(value);
                proof {
                    self.model@ = self.model@.insert(k, v);
                    assert forall|q: Seq<char>| #[trigger]
                        self.model@.contains_key(q) implies exists|i: int|
                        0 <= i < self.keys.len() && (#[trigger] self.keys[i])@ == q by {
                        if q == k {
                            assert(self.keys[self.keys.len() - 1]@ == q);
                        } else {
                            let i = choose|i: int|
                                0 <= i < old(self).keys.len() && (#[trigger] old(self).keys[i])@
                                    == q;
                            assert(self.keys[i]@ == q);
                        }
                    }
                }
            },
        }
    }

    /// Drops `key` and what was filed under it, if anything was.
    pub fn remove(&mut self, key: &String)
        requires
            old(self).wf(),
        ensures
            final(self).wf(),
            final(self)@ == old(self)@.remove(key@),
    {
        match self.position(key) {
            Some(i) => {
                self.keys.remove(i);
                self.values.remove(i);
                proof {
                    self.model@ = self.model@.remove(key@);
                    assert forall|q: Seq<char>| #[trigger]
                        self.model@.contains_key(q) implies exists|j: int|
                        0 <= j < self.keys.len() && (#[trigger] self.keys[j])@ == q by {
                        let j = choose|j: int|
                            0 <= j < old(self).keys.len() && (#[trigger] old(self).keys[j])@ == q;
                        if j < i {
                            assert(self.keys[j]@ == q);
                        } else {
                            assert(self.keys[j - 1]@ == q);
                        }
                    }
                }
            },
            None => {
                proof {
                    assert(self.model@.remove(key@) =~= self.model@);
                }
            },
        }
    }
}

} // verus!
