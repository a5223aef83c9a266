//! A small map keyed by strings, kept as a list in insertion order.

use vstd::prelude::*;
use crate::text::{owned, str_eq};

verus! {

/// A map from strings to values.
pub struct StrMap<V> {
    keys: Vec<String>,
    vals: Vec<V>,
}

impl<V> StrMap<V> {
    /// The position of `key` in the list.
    pub closed spec fn position(&self, key: Seq<char>) -> int {
        choose|i: int| 0 <= i < self.keys.len() && (#[trigger] self.keys[i])@ == key
    }

    pub closed spec fn has(&self, key: Seq<char>) -> bool {
        exists|i: int| 0 <= i < self.keys.len() && (#[trigger] self.keys[i])@ == key
    }

    /// Each key occurs once, and has its value.
    pub closed spec fn wf(&self) -> bool {
        &&& self.keys.len() == self.vals.len()
        &&& forall|i: int, j: int|
            0 <= i < j < self.keys.len() ==> (#[trigger] self.keys[i])@ != (#[trigger] self.keys[j])@
    }

    /// The keys in the order they were first inserted.
    pub closed spec fn key_seq(&self) -> Seq<Seq<char>> {
        Seq::new(self.keys.len() as nat, |i: int| self.keys[i]@)
    }

    /// The values in the order of their keys.
    pub closed spec fn val_seq(&self) -> Seq<V> {
        self.vals@
    }

    proof fn lemma_position(&self, key: Seq<char>, i: int)
        requires
            self.wf(),
            0 <= i < self.keys.len(),
            self.keys[i]@ == key,
        ensures
            self.has(key),
            self.position(key) == i,
    {
        let j = self.position(key);
        assert(0 <= j < self.keys.len() && self.keys[j]@ == key);
        if j < i {
            assert(self.keys[j]@ != self.keys[i]@);
        } else if i < j {
            assert(self.keys[i]@ != self.keys[j]@);
        }
    }

    /// The list and the map agree: the keys are distinct, as many as the
    /// map has entries, and each sits in front of its value.
    pub proof fn lemma_listing(&self)
        requires
            self.wf(),
        ensures
            self.key_seq().len() == self.val_seq().len(),
            self.key_seq().no_duplicates(),
            forall|i: int|
                0 <= i < self.key_seq().len() ==> self@.contains_key(#[trigger] self.key_seq()[i])
                    && self@[self.key_seq()[i]] == self.val_seq()[i],
            forall|k: Seq<char>| self@.contains_key(k) ==> self.key_seq().contains(k),
    {
        assert forall|i: int| 0 <= i < self.key_seq().len() implies self@.contains_key(
            #[trigger] self.key_seq()[i],
        ) && self@[self.key_seq()[i]] == self.val_seq()[i] by {
            self.lemma_position(self.keys[i]@, i);
        }
        assert forall|k: Seq<char>| self@.contains_key(k) implies self.key_seq().contains(k) by {
            let i = self.position(k);
            assert(self.key_seq()[i] == k);
        }
    }

    pub fn new() -> (r: StrMap<V>)
        ensures
            r.wf(),
            r@ == Map::<Seq<char>, V>::empty(),
    {
        let r = StrMap { keys: Vec::new(), vals: Vec::new() };
        assert(r@ =~= Map::<Seq<char>, V>::empty());
        r
    }

    pub fn len(&self) -> (r: usize)
        requires
            self.wf(),
        ensures
            r == self.key_seq().len(),
    {
        self.keys.len()
    }

    /// The key at position `i` of the list.
    pub fn key_at(&self, i: usize) -> (r: &String)
        requires
            self.wf(),
            i < self.key_seq().len(),
        ensures
            r@ == self.key_seq()[i as int],
    {
        &self.keys[i]
    }

    /// The value at position `i` of the list.
    pub fn value_at(&self, i: usize) -> (r: &V)
        requires
            self.wf(),
            i < self.key_seq().len(),
        ensures
            *r == self.val_seq()[i as int],
    {
        &self.vals[i]
    }

    fn find(&self, key: &str) -> (r: Option<usize>)
        requires
            self.wf(),
        ensures
            r is Some == self.has(key@),
            r matches Some(i) ==> i < self.keys.len() && self.position(key@) == i,
    {
        let mut i: usize = 0;
        while i < self.keys.len()
            invariant
                self.wf(),
                i <= self.keys.len(),
                forall|j: int| 0 <= j < i ==> (#[trigger] self.keys[j])@ != key@,
            decreases self.keys.len() - i,
        {
            if str_eq(self.keys[i].as_str(), key) {
                proof {
                    self.lemma_position(key@, i as int);
                }
                return Some(i);
            }
            i = i + 1;
        }
        None
    }

    pub fn contains_key(&self, key: &str) -> (r: bool)
        requires
            self.wf(),
        ensures
            r == self@.contains_key(key@),
    {
        self.find(key).is_some()
    }

    pub fn get(&self, key: &str) -> (r: Option<&V>)
        requires
            self.wf(),
        ensures
            match r {
                Some(v) => self@.contains_key(key@) && *v == self@[key@],
                None => !self@.contains_key(key@),
            },
    {
        match self.find(key) {
            Some(i) => Some(&self.vals[i]),
            None => None,
        }
    }

    /// Puts `value` under `key` and hands back what was there before.
    pub fn insert(&mut self, key: &str, value: V) -> (r: Option<V>)
        requires
            old(self).wf(),
        ensures
            final(self).wf(),
            final(self)@ == old(self)@.insert(key@, value),
            match r {
                Some(v) => old(self)@.contains_key(key@) && v == old(self)@[key@],
                None => !old(self)@.contains_key(key@),
            },
            old(self)@.contains_key(key@) ==> final(self).key_seq() == old(self).key_seq(),
            !old(self)@.contains_key(key@) ==> final(self).key_seq() == old(self).key_seq().push(
                key@,
            ),
    {
        let ghost before = *self;
        match self.find(key) {
            Some(i) => {
                let mut value = value;
                core::mem::swap(&mut self.vals[i], &mut value);
                proof {
                    assert(self.keys == before.keys);
                    assert forall|k: Seq<char>| self.has(k) == before.has(k) by {
                        if before.has(k) {
                            let j = before.position(k);
                            assert(self.keys[j]@ == k);
                        }
                        if self.has(k) {
                            let j = self.position(k);
                            assert(before.keys[j]@ == k);
                        }
                    }
                    assert forall|k: Seq<char>| self.has(k) implies self.position(k)
                        == before.position(k) by {
                        let j = before.position(k);
                        assert(before.keys[j]@ == k);
                        self.lemma_position(k, j);
                    }
                    self.lemma_position(key@, i as int);
                    assert(self@ =~= before@.insert(key@, self.vals[i as int]));
                    assert(self.key_seq() =~= before.key_seq());
                }
                Some(value)
            },
            None => {
                self.keys.push(owned(key));
                self.vals.push(value);
                proof {
                    let n = before.keys.len() as int;
                    assert forall|i: int, j: int| 0 <= i < j < self.keys.len() implies (
                    #[trigger] self.keys[i])@ != (#[trigger] self.keys[j])@ by {
                        assert(self.keys[i] == before.keys[i]);
                        if j < n {
                            assert(self.keys[j] == before.keys[j]);
                        }
                    }
                    self.lemma_position(key@, n);
                    assert forall|k: Seq<char>| k != key@ implies self.has(k) == before.has(k) && (
                    before.has(k) ==> self.position(k) == before.position(k)) by {
                        if before.has(k) {
                            let j = before.position(k);
                            assert(self.keys[j] == before.keys[j]);
                            self.lemma_position(k, j);
                        }
                        if self.has(k) {
                            let j = self.position(k);
                            if j < n {
                                assert(before.keys[j] == self.keys[j]);
                            }
                        }
                    }
                    assert forall|k: Seq<char>| #[trigger] self@.contains_key(k) && k != key@ implies self@[k]
                        == before@[k] by {
                        assert(self.vals[before.position(k)] == before.vals[before.position(k)]);
                    }
                    assert(self@ =~= before@.insert(key@, value));
                    assert(self.key_seq() =~= before.key_seq().push(key@));
                }
                None
            },
        }
    }

    /// Takes `key` and its value out of the map.
    pub fn remove(&mut self, key: &str) -> (r: Option<V>)
        requires
            old(self).wf(),
        ensures
            final(self).wf(),
            final(self)@ == old(self)@.remove(key@),
            match r {
                Some(v) => old(self)@.contains_key(key@) && v == old(self)@[key@],
                None => !old(self)@.contains_key(key@),
            },
            match r {
                Some(_) => exists|i: int|
                    0 <= i < old(self).key_seq().len() && old(self).key_seq()[i] == key@ && final(self).key_seq() == #[trigger] old(self).key_seq().remove(i),
                None => final(self).key_seq() == old(self).key_seq(),
            },
    {
        let ghost before = *self;
        match self.find(key) {
            Some(i) => {
                let _gone = self.keys.remove(i);
                let value = self.vals.remove(i);
                proof {
                    assert(before.key_seq()[i as int] == key@);
                    assert(self.key_seq() =~= before.key_seq().remove(i as int));
                    assert forall|a: int, b: int| 0 <= a < b < self.keys.len() implies (
                    #[trigger] self.keys[a])@ != (#[trigger] self.keys[b])@ by {
                        let a0 = if a < i { a } else { a + 1 };
                        let b0 = if b < i { b } else { b + 1 };
                        assert(self.keys[a] == before.keys[a0]);
                        assert(self.keys[b] == before.keys[b0]);
                    }
                    assert forall|k: Seq<char>| k != key@ implies self.has(k) == before.has(k) && (
                    self.has(k) ==> self.vals[self.position(k)] == before.vals[before.position(
                        k,
                    )]) by {
                        if before.has(k) {
                            let j = before.position(k);
                            assert(before.keys[j]@ == k);
                            let j1 = if j < i { j } else { j - 1 };
                            assert(self.keys[j1] == before.keys[j]);
                            self.lemma_position(k, j1);
                        }
                        if self.has(k) {
                            let j = self.position(k);
                            let j0 = if j < i { j } else { j + 1 };
                            assert(self.keys[j] == before.keys[j0]);
                            before.lemma_position(k, j0);
                        }
                    }
                    if self.has(key@) {
                        let j = self.position(key@);
                        let j0 = if j < i { j } else { j + 1 };
                        assert(self.keys[j] == before.keys[j0]);
                        before.lemma_position(key@, j0);
                    }
                    assert(self@ =~= before@.remove(key@));
                }
                Some(value)
            },
            None => {
                assert(self@ =~= before@.remove(key@));
                None
            },
        }
    }
}

impl<V> View for StrMap<V> {
    type V = Map<Seq<char>, V>;

    closed spec fn view(&self) -> Map<Seq<char>, V> {
        Map::new(|k: Seq<char>| self.has(k), |k: Seq<char>| self.vals[self.position(k)])
    }
}

} // verus!
