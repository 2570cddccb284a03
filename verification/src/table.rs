//! A small map kept as a list of entries with distinct keys.
//!
//! Keys are compared by their views. Entries keep the order in which their
//! keys were first inserted, so walking a table is deterministic.

use vstd::prelude::*;
use vstd::string::*;

verus! {

broadcast use vstd::string::group_string_axioms;

/// Types that can serve as keys: equality of keys is equality of views.
pub trait Keyed: View + Sized {
    /// True exactly if both keys have the same view.
    fn same_key(&self, other: &Self) -> (b: bool)
        ensures
            b == (self@ == other@),
    ;
}

impl Keyed for String {
    fn same_key(&self, other: &Self) -> (b: bool) {
        *self == *other
    }
}

/// A map from keys to values.
pub struct Table<K, V> {
    pub entries: Vec<(K, V)>,
}

impl<K: Keyed, V> Table<K, V> {
    /// The entries, in the order in which their keys came in.
    pub open spec fn seq(&self) -> Seq<(K, V)> {
        self.entries@
    }

    /// No two entries have the same key.
    pub open spec fn wf(&self) -> bool {
        forall|i: int, j: int|
            0 <= i < j < self.seq().len() ==> (#[trigger] self.seq()[i]).0@ != (
            #[trigger] self.seq()[j]).0@
    }

    /// Some entry has the key `k`.
    pub open spec fn has(&self, k: K::V) -> bool {
        exists|i: int| 0 <= i < self.seq().len() && (#[trigger] self.seq()[i]).0@ == k
    }

    /// Index of the entry with the key `k`.
    pub open spec fn index_of(&self, k: K::V) -> int {
        choose|i: int| 0 <= i < self.seq().len() && (#[trigger] self.seq()[i]).0@ == k
    }

    /// The value under the key `k`.
    pub open spec fn value(&self, k: K::V) -> V {
        self.seq()[self.index_of(k)].1
    }

    /// The table as a map from key views to values.
    pub open spec fn map(&self) -> Map<K::V, V> {
        Map::new(|k: K::V| self.has(k), |k: K::V| self.value(k))
    }

    /// An empty table.
    pub fn new() -> (t: Self)
        ensures
            t.wf(),
            t.seq().len() == 0,
            t.map() == Map::<K::V, V>::empty(),
    {
        let t = Table { entries: Vec::new() };
        t
    }

    /// Number of entries.
    pub fn len(&self) -> (n: usize)
        ensures
            n == self.seq().len(),
    {
        self.entries.len()
    }

    /// The key of entry `i`.
    pub fn key_at(&self, i: usize) -> (k: &K)
        requires
            i < self.seq().len(),
        ensures
            *k == self.seq()[i as int].0,
    {
        &self.entries[i].0
    }

    /// The value of entry `i`.
    pub fn value_at(&self, i: usize) -> (v: &V)
        requires
            i < self.seq().len(),
        ensures
            *v == self.seq()[i as int].1,
    {
        &self.entries[i].1
    }

    /// Index of the entry with the given key.
    pub fn find(&self, key: &K) -> (r: Option<usize>)
        ensures
            match r {
                Some(i) => i < self.seq().len() && self.seq()[i as int].0@ == key@,
                None => !self.has(key@),
            },
            r is Some <==> self.has(key@),
    {
        let mut i: usize = 0;
        while i < self.entries.len()
            invariant
                i <= self.seq().len(),
                forall|j: int| 0 <= j < i ==> (#[trigger] self.seq()[j]).0@ != key@,
            decreases self.seq().len() - i,
        {
            if self.entries[i].0.same_key(key) {
                return Some(i);
            }
            i += 1;
        }
        None
    }

    /// The value under the given key.
    pub fn get(&self, key: &K) -> (r: Option<&V>)
        requires
            self.wf(),
        ensures
            match r {
                Some(v) => self.map().contains_key(key@) && *v == self.map()[key@],
                None => !self.map().contains_key(key@),
            },
    {
        match self.find(key) {
            Some(i) => {
                Some(&self.entries[i].1)
            },
            None => None,
        }
    }

    /// Puts `value` under `key`, in place of the value that was there, if
    /// any. A new key goes to the end; the other entries stay where they
    /// are.
    pub fn insert(&mut self, key: K, value: V)
        requires
            old(self).wf(),
        ensures
            final(self).wf(),
            final(self).map() == old(self).map().insert(key@, value),
            old(self).has(key@) ==> final(self).seq().len() == old(self).seq().len(),
            !old(self).has(key@) ==> final(self).seq() == old(self).seq().push((key, value)),
            forall|i: int|
                0 <= i < old(self).seq().len() ==> (#[trigger] final(self).seq()[i]).0@ == old(
                    self,
                ).seq()[i].0@,
            forall|i: int|
                0 <= i < old(self).seq().len() && old(self).seq()[i].0@ != key@
                    ==> #[trigger] final(self).seq()[i] == old(self).seq()[i],
    {
        let ghost before = *self;
        let ghost kv = key@;
        match self.find(&key) {
            Some(i) => {
                self.entries.set(i, (key, value));
                proof {
                    assert forall|k: K::V| self.has(k) == (before.has(k) || k == kv) by {
                        if before.has(k) {
                            let j = before.index_of(k);
                            assert(self.seq()[j].0@ == k);
                        }
                    }
                    assert forall|k: K::V| self.has(k) implies self.value(k) == (if k == kv {
                        value
                    } else {
                        before.value(k)
                    }) by {}
                }
            },
            None => {
                self.entries.push((key, value));
                proof {
                    let last = self.seq().len() - 1;
                    assert forall|k: K::V| self.has(k) == (before.has(k) || k == kv) by {
                        if before.has(k) {
                            let j = before.index_of(k);
                            assert(self.seq()[j].0@ == k);
                        }
                        if k == kv {
                            assert(self.seq()[last].0@ == k);
                        }
                    }
                    assert forall|k: K::V| self.has(k) implies self.value(k) == (if k == kv {
                        value
                    } else {
                        before.value(k)
                    }) by {}
                }
            },
        }
    }
}

} // verus!
