//! A map keyed by text that keeps its entries in the order in which their keys
//! first came.

use vstd::prelude::*;
use crate::text::str_eq;

verus! {

/// No text occurs twice.
pub open spec fn distinct(keys: Seq<Seq<char>>) -> bool {
    forall|i: int, j: int| 0 <= i < j < keys.len() ==> keys[i] != keys[j]
}

/// `key` stands at two places of `keys`.
pub open spec fn occurs_twice(keys: Seq<Seq<char>>, key: Seq<char>) -> bool {
    exists|i: int, j: int|
        0 <= i < j < keys.len() && #[trigger] keys[i] == key && #[trigger] keys[j] == key
}

/// Where `key` stands in `keys`.
pub open spec fn position(keys: Seq<Seq<char>>, key: Seq<char>) -> int {
    choose|i: int| 0 <= i < keys.len() && keys[i] == key
}

/// In a sequence of distinct keys, a key stands at one place only.
pub proof fn lemma_position(keys: Seq<Seq<char>>, i: int)
    requires
        distinct(keys),
        0 <= i < keys.len(),
    ensures
        position(keys, keys[i]) == i,
{
    let p = position(keys, keys[i]);
    assert(0 <= p < keys.len() && keys[p] == keys[i]);
}

/// The map that pairs each key with the value at its place.
pub open spec fn pairing<V>(keys: Seq<Seq<char>>, values: Seq<V>) -> Map<Seq<char>, V> {
    Map::new(|k: Seq<char>| keys.contains(k), |k: Seq<char>| values[position(keys, k)])
}

/// A value that can make an equal copy of itself.
pub trait Replicate: Sized {
    fn replicate(&self) -> (r: Self)
        ensures
            r == *self,
    ;
}

/// A map from text to `V`.
#[derive(Debug, Clone, PartialEq, Eq)]
pub struct TextMap<V> {
    entries: Vec<(String, V)>,
}

impl<V> View for TextMap<V> {
    type V = Map<Seq<char>, V>;

    open spec fn view(&self) -> Map<Seq<char>, V> {
        pairing(self.keys(), self.values())
    }
}

impl<V> TextMap<V> {
    /// The keys, in the order in which they first came.
    pub closed spec fn keys(&self) -> Seq<Seq<char>> {
        Seq::new(self.entries@.len(), |i: int| self.entries@[i].0@)
    }

    /// The values, each at the place of its key.
    pub closed spec fn values(&self) -> Seq<V> {
        Seq::new(self.entries@.len(), |i: int| self.entries@[i].1)
    }

    /// No key occurs twice, and each key has its value.
    pub open spec fn wf(&self) -> bool {
        &&& distinct(self.keys())
        &&& self.keys().len() == self.values().len()
    }

    /// What the view holds, entry by entry.
    pub proof fn lemma_entries(&self)
        requires
            self.wf(),
        ensures
            forall|i: int|
                0 <= i < self.keys().len() ==> self@.contains_key(#[trigger] self.keys()[i])
                    && self@[self.keys()[i]] == self.values()[i],
            forall|k: Seq<char>|
                self@.contains_key(k) ==> 0 <= position(self.keys(), k) < self.keys().len()
                    && self.keys()[position(self.keys(), k)] == k,
            self@.dom().finite(),
            self@.dom() =~= self.keys().to_set(),
    {
        let keys = self.keys();
        assert forall|i: int| 0 <= i < keys.len() implies self@.contains_key(#[trigger] keys[i])
            && self@[keys[i]] == self.values()[i] by {
            lemma_position(keys, i);
        }
        assert forall|k: Seq<char>| self@.contains_key(k) implies 0 <= position(keys, k)
            < keys.len() && keys[position(keys, k)] == k by {
            let i = choose|i: int| 0 <= i < keys.len() && keys[i] == k;
            assert(0 <= i < keys.len() && keys[i] == k);
        }
        assert(self@.dom() =~= keys.to_set());
        vstd::seq_lib::seq_to_set_is_finite(keys);
    }

    /// A map without entries.
    pub fn new() -> (m: TextMap<V>)
        ensures
            m.wf(),
            m@ == Map::<Seq<char>, V>::empty(),
            m.keys() == Seq::<Seq<char>>::empty(),
    {
        let m = TextMap { entries: Vec::new() };
        assert(m.keys() =~= Seq::<Seq<char>>::empty());
        assert(m@ =~= Map::<Seq<char>, V>::empty());
        m
    }

    /// The number of entries.
    pub fn len(&self) -> (n: usize)
        ensures
            n == self.keys().len(),
            self.wf() ==> n == self@.dom().len(),
    {
        proof {
            if self.wf() {
                self.lemma_entries();
                self.keys().unique_seq_to_set();
            }
        }
        self.entries.len()
    }

    /// Whether the map has no entry.
    pub fn is_empty(&self) -> (b: bool)
        ensures
            b == (self.keys().len() == 0),
            b == (self@ == Map::<Seq<char>, V>::empty()),
    {
        proof {
            if self.keys().len() == 0 {
                assert(self@ =~= Map::<Seq<char>, V>::empty());
            } else {
                assert(self.keys().contains(self.keys()[0]));
                assert(self@.contains_key(self.keys()[0]));
            }
        }
        self.entries.len() == 0
    }

    /// The place of `key`, if the map holds it.
    pub fn find(&self, key: &str) -> (r: Option<usize>)
        ensures
            match r {
                Some(i) => i < self.keys().len() && self.keys()[i as int] == key@,
                None => !self.keys().contains(key@),
            },
            r is Some == self@.contains_key(key@),
    {
        let mut i: usize = 0;
        while i < self.entries.len()
            invariant
                i <= self.entries.len(),
                forall|j: int| 0 <= j < i ==> self.keys()[j] != key@,
            decreases self.entries.len() - i,
        {
            if str_eq(self.entries[i].0.as_str(), key) {
                assert(self.keys()[i as int] == key@);
                return Some(i);
            }
            i += 1;
        }
        None
    }

    /// Whether the map holds `key`.
    pub fn contains_key(&self, key: &str) -> (b: bool)
        ensures
            b == self@.contains_key(key@),
    {
        self.find(key).is_some()
    }

    /// The value of `key`, if the map holds it.
    pub fn get(&self, key: &str) -> (r: Option<&V>)
        requires
            self.wf(),
        ensures
            match r {
                Some(v) => self@.contains_key(key@) && *v == self@[key@],
                None => !self@.contains_key(key@),
            },
    {
        match self.find(key) {
            Some(i) => {
                proof {
                    self.lemma_entries();
                }
                Some(&self.entries[i].1)
            },
            None => None,
        }
    }

    /// The key at place `i`.
    pub fn key_at(&self, i: usize) -> (k: &String)
        requires
            i < self.keys().len(),
        ensures
            k@ == self.keys()[i as int],
    {
        &self.entries[i].0
    }

    /// The value at place `i`.
    pub fn value_at(&self, i: usize) -> (v: &V)
        requires
            i < self.keys().len(),
        ensures
            *v == self.values()[i as int],
            self.keys().len() == self.values().len(),
    {
        &self.entries[i].1
    }

    /// Sets the value of `key`. A new key goes to the end.
    pub fn insert(&mut self, key: String, value: V)
        requires
            old(self).wf(),
        ensures
            final(self).wf(),
            final(self)@ == old(self)@.insert(key@, value),
            old(self)@.contains_key(key@) ==> final(self).keys() == old(self).keys(),
            !old(self)@.contains_key(key@) ==> final(self).keys() == old(self).keys().push(key@),
    {
        let ghost before = *self;
        proof {
            before.lemma_entries();
        }
        match self.find(key.as_str()) {
            Some(i) => {
                self.entries[i] = (key, value);
                proof {
                    assert(self.keys() =~= before.keys());
                    assert(self.values() =~= before.values().update(i as int, value));
                    lemma_position(before.keys(), i as int);
                    assert forall|k: Seq<char>| #[trigger]
                        before@.insert(key@, value).contains_key(k) implies self@.contains_key(k)
                        && self@[k] == before@.insert(key@, value)[k] by {
                        if k != key@ {
                            assert(before.keys()[position(before.keys(), k)] == k);
                        }
                    }
                    assert(self@ =~= before@.insert(key@, value));
                }
            },
            None => {
                let ghost k0 = key@;
                self.entries.push((key, value));
                proof {
                    assert(self.keys() =~= before.keys().push(k0));
                    assert(self.values() =~= before.values().push(value));
                    let n = before.keys().len() as int;
                    assert(distinct(self.keys()));
                    lemma_position(self.keys(), n);
                    assert forall|k: Seq<char>| self@.contains_key(k) implies #[trigger]
                        before@.insert(k0, value).contains_key(k) by {
                        let i = choose|i: int| 0 <= i < self.keys().len() && self.keys()[i] == k;
                        if i < n {
                            assert(before.keys()[i] == k);
                        }
                    }
                    assert forall|k: Seq<char>| #[trigger]
                        before@.insert(k0, value).contains_key(k) implies self@.contains_key(k)
                        && self@[k] == before@.insert(k0, value)[k] by {
                        if k != k0 {
                            let i = position(before.keys(), k);
                            assert(before.keys()[i] == k);
                            assert(self.keys()[i] == k);
                            lemma_position(self.keys(), i);
                        } else {
                            assert(self.keys()[n] == k0);
                        }
                    }
                    assert(self@ =~= before@.insert(k0, value));
                }
            },
        }
    }

    /// Takes `key` out, with its value; the other entries keep their order.
    pub fn remove(&mut self, key: &str) -> (r: Option<V>)
        requires
            old(self).wf(),
        ensures
            final(self).wf(),
            final(self)@ == old(self)@.remove(key@),
            match r {
                Some(v) => old(self)@.contains_key(key@) && v == old(self)@[key@],
                None => !old(self)@.contains_key(key@),
            },
            r is None ==> final(self).keys() == old(self).keys(),
            r is Some ==> final(self).keys() == old(self).keys().remove(
                position(old(self).keys(), key@),
            ),
    {
        let ghost before = *self;
        proof {
            before.lemma_entries();
        }
        match self.find(key) {
            Some(i) => {
                let entry = self.entries.remove(i);
                proof {
                    let p = i as int;
                    lemma_position(before.keys(), p);
                    assert(self.keys() =~= before.keys().remove(p));
                    assert(self.values() =~= before.values().remove(p));
                    assert(distinct(self.keys())) by {
                        assert forall|a: int, b: int| 0 <= a < b < self.keys().len() implies
                            self.keys()[a] != self.keys()[b] by {
                            let a0 = if a < p { a } else { a + 1 };
                            let b0 = if b < p { b } else { b + 1 };
                            assert(self.keys()[a] == before.keys()[a0]);
                            assert(self.keys()[b] == before.keys()[b0]);
                        }
                    }
                    assert forall|k: Seq<char>| self@.contains_key(k) implies #[trigger]
                        before@.remove(key@).contains_key(k) && self@[k] == before@.remove(
                        key@,
                    )[k] by {
                        let a = choose|a: int| 0 <= a < self.keys().len() && self.keys()[a] == k;
                        let a0 = if a < p { a } else { a + 1 };
                        assert(before.keys()[a0] == k);
                        lemma_position(before.keys(), a0);
                        lemma_position(self.keys(), a);
                    }
                    assert forall|k: Seq<char>| #[trigger]
                        before@.remove(key@).contains_key(k) implies self@.contains_key(k) by {
                        let a0 = position(before.keys(), k);
                        assert(before.keys()[a0] == k);
                        let a = if a0 < p { a0 } else { a0 - 1 };
                        assert(self.keys()[a] == k);
                    }
                    assert(self@ =~= before@.remove(key@));
                }
                Some(entry.1)
            },
            None => {
                proof {
                    assert(self@ =~= before@.remove(key@));
                }
                None
            },
        }
    }
}

impl<V: Replicate> TextMap<V> {
    /// A copy with the same entries in the same order.
    pub fn duplicate(&self) -> (r: TextMap<V>)
        ensures
            r.keys() == self.keys(),
            r.values() == self.values(),
            r@ == self@,
            r.wf() == self.wf(),
    {
        let mut entries: Vec<(String, V)> = Vec::new();
        let mut i: usize = 0;
        while i < self.entries.len()
            invariant
                i <= self.entries.len(),
                entries@.len() == i,
                forall|j: int| 0 <= j < i ==> entries@[j] == self.entries@[j],
            decreases self.entries.len() - i,
        {
            let key = self.entries[i].0.clone();
            let value = self.entries[i].1.replicate();
            entries.push((key, value));
            i += 1;
        }
        let r = TextMap { entries };
        assert(r.keys() =~= self.keys());
        assert(r.values() =~= self.values());
        r
    }
}

} // verus!
