use vstd::prelude::*;

use crate::key::Key;

verus! {

/// A small keyed store: at most one value per key, looked up by the key's
/// bytes.
pub struct Table<V> {
    entries: Vec<(Key, V)>,
    model: Ghost<Map<Seq<u8>, V>>,
}

impl<V> View for Table<V> {
    type V = Map<Seq<u8>, V>;

    closed spec fn view(&self) -> Map<Seq<u8>, V> {
        self.model@
    }
}

impl<V> Table<V> {
    /// The entries hold distinct keys, and hold exactly what the model maps.
    pub closed spec fn wf(&self) -> bool {
        &&& forall|i: int, j: int|
            0 <= i < j < self.entries@.len() ==> self.entries@[i].0@ != self.entries@[j].0@
        &&& forall|i: int|
            0 <= i < self.entries@.len() ==> {
                &&& #[trigger] self.model@.contains_key(self.entries@[i].0@)
                &&& self.model@[self.entries@[i].0@] == self.entries@[i].1
            }
        &&& forall|k: Seq<u8>| #[trigger]
            self.model@.contains_key(k) ==> exists|i: int|
                0 <= i < self.entries@.len() && self.entries@[i].0@ == k
    }

    pub fn new() -> (t: Self)
        ensures
            t.wf(),
            t@ == Map::<Seq<u8>, V>::empty(),
    {
        Table { entries: Vec::new(), model: Ghost(Map::empty()) }
    }

    fn find(&self, k: &Key) -> (r: Option<usize>)
        requires
            self.wf(),
        ensures
            match r {
                Some(i) => i < self.entries@.len() && self.entries@[i as int].0@ == k@,
                None => !self@.contains_key(k@),
            },
    {
        let mut i: usize = 0;
        while i < self.entries.len()
            invariant
                self.wf(),
                0 <= i <= self.entries@.len(),
                forall|j: int| 0 <= j < i ==> self.entries@[j].0@ != k@,
            decreases self.entries@.len() - i,
        {
            if self.entries[i].0 == *k {
                return Some(i);
            }
            i = i + 1;
        }
        None
    }

    pub fn get(&self, k: &Key) -> (r: Option<&V>)
        requires
            self.wf(),
        ensures
            match r {
                Some(v) => self@.contains_key(k@) && *v == self@[k@],
                None => !self@.contains_key(k@),
            },
    {
        match self.find(k) {
            Some(i) => {
                assert(self.model@.contains_key(self.entries@[i as int].0@));
                Some(&self.entries[i].1)
            },
            None => None,
        }
    }

    /// Maps `k` to `v`, replacing what `k` mapped to before.
    pub fn insert(&mut self, k: Key, v: V)
        requires
            old(self).wf(),
        ensures
            final(self).wf(),
            final(self)@ == old(self)@.insert(k@, v),
    {
        let ghost m = self.model@.insert(k@, v);
        let ghost kv = k@;
        let pos: usize;
        match self.find(&k) {
            Some(i) => {
                self.entries.set(i, (k, v));
                pos = i;
            },
            None => {
                self.entries.push((k, v));
                pos = (self.entries.len() - 1) as usize;
            },
        }
        self.model = Ghost(m);
        assert(self.entries@[pos as int].0@ == kv);
        assert forall|q: Seq<u8>| #[trigger] self.model@.contains_key(q) implies exists|i: int|
            0 <= i < self.entries@.len() && self.entries@[i].0@ == q by {
            if q != kv {
                assert(old(self).model@.contains_key(q));
                let i = choose|i: int| 0 <= i < old(self).entries@.len() && old(self).entries@[i].0@ == q;
                assert(self.entries@[i].0@ == q);
            } else {
                assert(self.entries@[pos as int].0@ == q);
            }
        }
    }

    /// Takes `k` out, handing back what it mapped to.
    pub fn remove(&mut self, k: &Key) -> (r: Option<V>)
        requires
            old(self).wf(),
        ensures
            final(self).wf(),
            final(self)@ == old(self)@.remove(k@),
            match r {
                Some(v) => old(self)@.contains_key(k@) && v == old(self)@[k@],
                None => !old(self)@.contains_key(k@),
            },
    {
        match self.find(k) {
            Some(i) => {
                assert(self.model@.contains_key(self.entries@[i as int].0@));
                let ghost m = self.model@.remove(k@);
                let (_, v) = self.entries.swap_remove(i);
                self.model = Ghost(m);
                assert forall|q: Seq<u8>| #[trigger] self.model@.contains_key(q) implies exists|j: int|
                    0 <= j < self.entries@.len() && self.entries@[j].0@ == q by {
                    let j = choose|j: int| 0 <= j < old(self).entries@.len() && old(self).entries@[j].0@ == q;
                    if j == old(self).entries@.len() - 1 {
                        assert(self.entries@[i as int].0@ == q);
                    } else {
                        assert(self.entries@[j].0@ == q);
                    }
                }
                Some(v)
            },
            None => None,
        }
    }
}

} // verus!
