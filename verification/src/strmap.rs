//! A map keyed by strings that keeps its keys in the order in which they
//! first came.

use crate::text::str_eq;
use vstd::prelude::*;

verus! {

/// One key with its value.
#[derive(Clone, Debug)]
pub struct Entry<V> {
    pub key: String,
    pub value: V,
}

/// A map from strings to values. No key occurs twice; a key that is
/// inserted again keeps its place and takes the new value.
#[derive(Clone, Debug)]
pub struct StringMap<V> {
    entries: Vec<Entry<V>>,
}

impl<V> StringMap<V> {
    /// The keys, in the order in which they first came.
    pub closed spec fn keys(&self) -> Seq<Seq<char>> {
        self.entries@.map_values(|e: Entry<V>| e.key@)
    }

    /// The value of each key, in the order of the keys.
    pub closed spec fn values(&self) -> Seq<V> {
        self.entries@.map_values(|e: Entry<V>| e.value)
    }

    /// Each key has one value and occurs once.
    pub open spec fn wf(&self) -> bool {
        &&& self.keys().len() == self.values().len()
        &&& self.keys().no_duplicates()
    }

    /// The map from each key to its value.
    pub open spec fn view(&self) -> Map<Seq<char>, V> {
        Map::new(
            |k: Seq<char>| self.keys().contains(k),
            |k: Seq<char>| self.values()[self.keys().index_of(k)],
        )
    }

    /// The map without keys.
    pub fn new() -> (m: Self)
        ensures
            m.wf(),
            m.keys() == Seq::<Seq<char>>::empty(),
            m.values() == Seq::<V>::empty(),
            m@ == Map::<Seq<char>, V>::empty(),
    {
        let m = StringMap { entries: Vec::new() };
        assert(m.keys() =~= Seq::<Seq<char>>::empty());
        assert(m.values() =~= Seq::<V>::empty());
        assert(m@ =~= Map::<Seq<char>, V>::empty());
        m
    }

    /// The number of keys.
    pub fn len(&self) -> (n: usize)
        ensures
            n == self.keys().len(),
            n == self.values().len(),
    {
        self.entries.len()
    }

    /// The key at a position.
    pub fn key_at(&self, i: usize) -> (k: &String)
        requires
            i < self.keys().len(),
        ensures
            k@ == self.keys()[i as int],
    {
        &self.entries[i].key
    }

    /// The value at a position.
    pub fn value_at(&self, i: usize) -> (v: &V)
        requires
            i < self.values().len(),
        ensures
            *v == self.values()[i as int],
    {
        &self.entries[i].value
    }

    /// Where a key stands, if the map has it.
    pub fn position(&self, key: &str) -> (at: Option<usize>)
        ensures
            match at {
                Some(i) => i < self.keys().len() && self.keys()[i as int] == key@,
                None => !self.keys().contains(key@),
            },
    {
        let mut i: usize = 0;
        while i < self.entries.len()
            invariant
                i <= self.entries.len(),
                forall|j: int| 0 <= j < i ==> self.keys()[j] != key@,
            decreases self.entries.len() - i,
        {
            if str_eq(self.entries[i].key.as_str(), key) {
                return Some(i);
            }
            i += 1;
        }
        None
    }

    /// The value of a key, if the map has it.
    pub fn get(&self, key: &str) -> (found: Option<&V>)
        requires
            self.wf(),
        ensures
            match found {
                Some(v) => self@.contains_key(key@) && *v == self@[key@],
                None => !self@.contains_key(key@),
            },
    {
        match self.position(key) {
            Some(i) => {
                proof {
                    self.lemma_value_of_key(i as int);
                }
                Some(&self.entries[i].value)
            },
            None => None,
        }
    }

    /// Gives `key` the value `value`: in its place where the map has the key,
    /// at the end where it has not.
    pub fn insert(&mut self, key: String, value: V)
        requires
            old(self).wf(),
        ensures
            final(self).wf(),
            old(self).keys().contains(key@) ==> final(self).keys() == old(self).keys()
                && final(self).values() == old(self).values().update(
                old(self).keys().index_of(key@),
                value,
            ),
            !old(self).keys().contains(key@) ==> final(self).keys() == old(self).keys().push(key@)
                && final(self).values() == old(self).values().push(value),
            final(self)@ == old(self)@.insert(key@, value),
    {
        let ghost before = *self;
        let ghost k = key@;
        match self.position(key.as_str()) {
            Some(i) => {
                proof {
                    before.lemma_value_of_key(i as int);
                }
                self.entries.set(i, Entry { key, value });
                proof {
                    assert(self.keys() =~= before.keys());
                    assert(self.values() =~= before.values().update(i as int, value));
                    assert forall|q: Seq<char>| self@.contains_key(q) implies #[trigger] self@[q]
                        == before@.insert(k, value)[q] by {
                        let j = self.keys().index_of(q);
                        self.lemma_value_of_key(j);
                        before.lemma_value_of_key(j);
                    }
                    assert(self@ =~= before@.insert(k, value));
                }
            },
            None => {
                self.entries.push(Entry { key, value });
                proof {
                    assert(self.keys() =~= before.keys().push(k));
                    assert(self.values() =~= before.values().push(value));
                    assert forall|q: Seq<char>| self@.contains_key(q) implies #[trigger] self@[q]
                        == before@.insert(k, value)[q] && before@.insert(k, value).contains_key(
                        q,
                    ) by {
                        let j = self.keys().index_of(q);
                        self.lemma_value_of_key(j);
                        if j < before.keys().len() {
                            assert(before.keys()[j] == q);
                            before.lemma_value_of_key(j);
                        }
                    }
                    assert forall|q: Seq<char>|
                        before@.insert(k, value).contains_key(q) implies self@.contains_key(q) by {
                        if q == k {
                            assert(self.keys()[before.keys().len() as int] == q);
                        } else {
                            let j = before.keys().index_of(q);
                            assert(self.keys()[j] == q);
                        }
                    }
                    assert(self@ =~= before@.insert(k, value));
                }
            },
        }
    }

    /// The key at position `i` has the value at position `i`.
    pub proof fn lemma_value_of_key(self, i: int)
        requires
            self.wf(),
            0 <= i < self.keys().len(),
        ensures
            self@.contains_key(self.keys()[i]),
            self@[self.keys()[i]] == self.values()[i],
            self.keys().index_of(self.keys()[i]) == i,
    {
        let k = self.keys()[i];
        assert(self.keys().contains(k));
        let j = self.keys().index_of(k);
        assert(0 <= j < self.keys().len() && self.keys()[j] == k);
    }
}

} // verus!
