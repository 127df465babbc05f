//! A map from texts to values, as an association list in insertion order
//! with each key once.
use vstd::prelude::*;
use crate::text::{same_text, views};

verus! {

/// A map from texts to values, in insertion order.
pub struct TextMap<V> {
    keys: Vec<String>,
    vals: Vec<V>,
}

impl<V> TextMap<V> {
    /// The keys, in insertion order.
    pub closed spec fn key_seq(&self) -> Seq<Seq<char>> {
        views(self.keys@)
    }

    /// The values, in the order of their keys.
    pub closed spec fn val_seq(&self) -> Seq<V> {
        self.vals@
    }

    /// As many values as keys, and no key twice.
    pub closed spec fn wf(&self) -> bool {
        &&& self.keys@.len() == self.vals@.len()
        &&& forall|i: int, j: int|
            0 <= i < j < self.keys@.len() ==> #[trigger] views(self.keys@)[i] != #[trigger] views(self.keys@)[j]
    }

    /// The well-formedness facts callers use.
    pub proof fn lemma_wf(&self)
        requires
            self.wf(),
        ensures
            self.key_seq().len() == self.val_seq().len(),
            forall|i: int, j: int|
                0 <= i < j < self.key_seq().len() ==> #[trigger] self.key_seq()[i] != #[trigger] self.key_seq()[j],
    {
    }

    /// A key has one value: two entries with the same key are the same entry.
    pub proof fn lemma_lookup_unique(&self, k: Seq<char>, i: int, j: int)
        requires
            self.wf(),
            0 <= i < self.key_seq().len(),
            0 <= j < self.key_seq().len(),
            self.key_seq()[i] == k,
            self.key_seq()[j] == k,
        ensures
            i == j,
            self.val_seq()[i] == self.val_seq()[j],
    {
    }

    /// An empty map.
    pub fn new() -> (m: TextMap<V>)
        ensures
            m.wf(),
            m.key_seq().len() == 0,
            m.val_seq().len() == 0,
    {
        TextMap { keys: Vec::new(), vals: Vec::new() }
    }

    /// The number of entries.
    pub fn len(&self) -> (n: usize)
        requires
            self.wf(),
        ensures
            n == self.key_seq().len(),
    {
        self.keys.len()
    }

    /// The position of `k`.
    pub fn index_of(&self, k: &str) -> (r: Option<usize>)
        requires
            self.wf(),
        ensures
            match r {
                Some(i) => i < self.key_seq().len() && self.key_seq()[i as int] == k@,
                None => !self.key_seq().contains(k@),
            },
    {
        let mut i: usize = 0;
        while i < self.keys.len()
            invariant
                i <= self.keys@.len(),
                forall|x: int| 0 <= x < i ==> views(self.keys@)[x] != k@,
            decreases self.keys@.len() - i,
        {
            assert(views(self.keys@)[i as int] == self.keys@[i as int]@);
            if same_text(self.keys[i].as_str(), k) {
                return Some(i);
            }
            i = i + 1;
        }
        None
    }

    /// The value of `k`.
    pub fn get(&self, k: &str) -> (r: Option<&V>)
        requires
            self.wf(),
        ensures
            match r {
                Some(v) => exists|i: int|
                    0 <= i < self.key_seq().len() && #[trigger] self.key_seq()[i] == k@ && *v == self.val_seq()[i],
                None => !self.key_seq().contains(k@),
            },
    {
        match self.index_of(k) {
            Some(i) => Some(&self.vals[i]),
            None => None,
        }
    }

    /// The key at position `i`.
    pub fn key_at(&self, i: usize) -> (k: &String)
        requires
            self.wf(),
            i < self.key_seq().len(),
        ensures
            k@ == self.key_seq()[i as int],
    {
        &self.keys[i]
    }

    /// The value at position `i`.
    pub fn value_at(&self, i: usize) -> (v: &V)
        requires
            self.wf(),
            i < self.key_seq().len(),
        ensures
            *v == self.val_seq()[i as int],
    {
        &self.vals[i]
    }

    /// Sets the value at position `i`.
    pub fn set_at(&mut self, i: usize, v: V)
        requires
            old(self).wf(),
            i < old(self).key_seq().len(),
        ensures
            final(self).wf(),
            final(self).key_seq() == old(self).key_seq(),
            final(self).val_seq() == old(self).val_seq().update(i as int, v),
    {
        self.vals.set(i, v);
    }

    /// Maps `k` to `v`: in place when `k` is a key, else at the end.
    pub fn insert(&mut self, k: String, v: V)
        requires
            old(self).wf(),
        ensures
            final(self).wf(),
            old(self).key_seq().contains(k@) ==> exists|i: int|
                0 <= i < old(self).key_seq().len() && #[trigger] old(self).key_seq()[i] == k@
                    && final(self).key_seq() == old(self).key_seq()
                    && final(self).val_seq() == old(self).val_seq().update(i, v),
            !old(self).key_seq().contains(k@) ==> final(self).key_seq() == old(self).key_seq().push(k@)
                && final(self).val_seq() == old(self).val_seq().push(v),
    {
        match self.index_of(k.as_str()) {
            Some(i) => {
                self.vals.set(i, v);
            },
            None => {
                let ghost ks = views(self.keys@);
                self.keys.push(k);
                self.vals.push(v);
                assert(views(self.keys@) =~= ks.push(k@));
                assert forall|i: int, j: int| 0 <= i < j < self.keys@.len() implies #[trigger] views(self.keys@)[i]
                    != #[trigger] views(self.keys@)[j] by {
                    if j == self.keys@.len() - 1 {
                        assert(ks[i] == views(self.keys@)[i]);
                    } else {
                        assert(ks[i] == views(self.keys@)[i]);
                        assert(ks[j] == views(self.keys@)[j]);
                    }
                }
            },
        }
    }

    /// Removes every entry.
    pub fn clear(&mut self)
        ensures
            final(self).wf(),
            final(self).key_seq().len() == 0,
            final(self).val_seq().len() == 0,
    {
        self.keys = Vec::new();
        self.vals = Vec::new();
    }

    /// Removes the entry of `k`; whether there was one.
    pub fn remove(&mut self, k: &str) -> (r: bool)
        requires
            old(self).wf(),
        ensures
            final(self).wf(),
            r == old(self).key_seq().contains(k@),
            r ==> exists|i: int|
                0 <= i < old(self).key_seq().len() && #[trigger] old(self).key_seq()[i] == k@
                    && final(self).key_seq() == old(self).key_seq().remove(i)
                    && final(self).val_seq() == old(self).val_seq().remove(i),
            !r ==> final(self).key_seq() == old(self).key_seq() && final(self).val_seq() == old(self).val_seq(),
    {
        match self.index_of(k) {
            Some(i) => {
                let ghost ks = views(self.keys@);
                let ghost ko = self.keys@;
                self.keys.remove(i);
                self.vals.remove(i);
                assert(views(self.keys@) =~= ks.remove(i as int));
                assert forall|a: int, b: int| 0 <= a < b < self.keys@.len() implies #[trigger] views(self.keys@)[a]
                    != #[trigger] views(self.keys@)[b] by {
                    let a0 = if a < i { a } else { a + 1 };
                    let b0 = if b < i { b } else { b + 1 };
                    assert(views(self.keys@)[a] == ks[a0]);
                    assert(views(self.keys@)[b] == ks[b0]);
                }
                true
            },
            None => false,
        }
    }
}

} // verus!
