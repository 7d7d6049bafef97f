//! A set of texts that keeps its items in the order in which they first came.

use vstd::prelude::*;
use crate::text_map::{distinct, TextMap};

verus! {

/// The items of a sequence with one more at its end are the items of the
/// sequence, and that one.
pub proof fn lemma_push_to_set(s: Seq<Seq<char>>, x: Seq<char>)
    ensures
        s.push(x).to_set() == s.to_set().insert(x),
{
    let next = s.push(x);
    assert forall|c: Seq<char>| next.to_set().contains(c) == s.to_set().insert(x).contains(c) by {
        if next.contains(c) {
            let a = choose|a: int| 0 <= a < next.len() && next[a] == c;
            if a < s.len() {
                assert(s[a] == c);
            }
        }
        if s.contains(c) {
            let a = choose|a: int| 0 <= a < s.len() && s[a] == c;
            assert(next[a] == c);
        }
        if c == x {
            assert(next[s.len() as int] == c);
        }
    }
    assert(next.to_set() =~= s.to_set().insert(x));
}

/// A set of texts.
#[derive(Debug, Clone, PartialEq, Eq)]
pub struct TextSet {
    map: TextMap<()>,
}

impl View for TextSet {
    type V = Set<Seq<char>>;

    open spec fn view(&self) -> Set<Seq<char>> {
        self.items().to_set()
    }
}

impl TextSet {
    /// The items, in the order in which they first came.
    pub closed spec fn items(&self) -> Seq<Seq<char>> {
        self.map.keys()
    }

    /// No item occurs twice.
    pub closed spec fn wf(&self) -> bool {
        self.map.wf()
    }

    /// In a well-formed set the items are distinct.
    pub proof fn lemma_distinct(&self)
        requires
            self.wf(),
        ensures
            distinct(self.items()),
            self@.finite(),
            self@.len() == self.items().len(),
    {
        vstd::seq_lib::seq_to_set_is_finite(self.items());
        self.items().unique_seq_to_set();
    }

    /// A set without items.
    pub fn new() -> (s: TextSet)
        ensures
            s.wf(),
            s@ == Set::<Seq<char>>::empty(),
            s.items() == Seq::<Seq<char>>::empty(),
    {
        let s = TextSet { map: TextMap::new() };
        assert(s@ =~= Set::<Seq<char>>::empty());
        s
    }

    /// The number of items.
    pub fn len(&self) -> (n: usize)
        ensures
            n == self.items().len(),
            self.wf() ==> n == self@.len(),
    {
        proof {
            if self.wf() {
                self.lemma_distinct();
            }
        }
        self.map.len()
    }

    /// Whether the set has no item.
    pub fn is_empty(&self) -> (b: bool)
        ensures
            b == (self.items().len() == 0),
            b == (self@ == Set::<Seq<char>>::empty()),
    {
        proof {
            if self.items().len() == 0 {
                assert(self@ =~= Set::<Seq<char>>::empty());
            } else {
                assert(self.items().contains(self.items()[0]));
                assert(self@.contains(self.items()[0]));
            }
        }
        self.map.is_empty()
    }

    /// Whether the set holds `item`.
    pub fn contains(&self, item: &str) -> (b: bool)
        ensures
            b == self@.contains(item@),
    {
        self.map.find(item).is_some()
    }

    /// The item at place `i`.
    pub fn item_at(&self, i: usize) -> (item: &String)
        requires
            i < self.items().len(),
        ensures
            item@ == self.items()[i as int],
            self@.contains(item@),
    {
        assert(self.items().contains(self.items()[i as int]));
        self.map.key_at(i)
    }

    /// Puts `item` in; says whether it was new.
    pub fn insert(&mut self, item: String) -> (fresh: bool)
        requires
            old(self).wf(),
        ensures
            final(self).wf(),
            final(self)@ == old(self)@.insert(item@),
            fresh == !old(self)@.contains(item@),
            fresh ==> final(self).items() == old(self).items().push(item@),
            !fresh ==> final(self).items() == old(self).items(),
    {
        let ghost before = self.items();
        let known = self.map.find(item.as_str()).is_some();
        proof {
            self.map.lemma_entries();
        }
        self.map.insert(item, ());
        proof {
            self.map.lemma_entries();
            assert(self@ =~= before.to_set().insert(item@));
        }
        !known
    }

    /// Takes `item` out; says whether it was there.
    pub fn remove(&mut self, item: &str) -> (was_there: bool)
        requires
            old(self).wf(),
        ensures
            final(self).wf(),
            final(self)@ == old(self)@.remove(item@),
            was_there == old(self)@.contains(item@),
            !was_there ==> final(self).items() == old(self).items(),
    {
        let ghost before = self.items();
        proof {
            self.map.lemma_entries();
        }
        let r = self.map.remove(item);
        proof {
            self.map.lemma_entries();
            assert(self@ =~= before.to_set().remove(item@));
        }
        r.is_some()
    }
}

} // verus!
