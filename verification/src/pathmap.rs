//! The exact paths of a route table, found by their hash.

use crate::json::text_bytes;
use crate::strmap::StringMap;
use std::collections::hash_map::DefaultHasher;
use std::collections::HashMap;
use std::hash::Hasher;
use vstd::prelude::*;
use vstd::std_specs::hash::*;

verus! {

broadcast use vstd::std_specs::hash::group_hash_axioms;

/// The hash under which a path is kept.
pub open spec fn path_hash(path: Seq<char>) -> u64 {
    DefaultHasher::spec_finish(seq![text_bytes(path)])
}

/// The hash under which a path is kept.
pub fn hash_of(path: &str) -> (hash: u64)
    ensures
        hash == path_hash(path@),
{
    let mut hasher = DefaultHasher::new();
    hasher.write(path.as_bytes());
    assert(hasher@ =~= seq![text_bytes(path@)]);
    hasher.finish()
}

/// A map from paths to the numbers of their servants. The paths with one
/// hash are kept together, so that a path is found among few.
#[derive(Debug)]
pub struct RouteMap {
    buckets: HashMap<u64, StringMap<usize>>,
}

impl RouteMap {
    /// The paths kept under each hash.
    pub closed spec fn buckets(&self) -> Map<u64, StringMap<usize>> {
        self.buckets@
    }

    /// Under every hash the paths are in order.
    pub open spec fn wf(&self) -> bool {
        forall|h: u64| #[trigger] self.buckets().contains_key(h) ==> self.buckets()[h].wf()
    }

    /// The map from each path to the number of its servant.
    pub open spec fn view(&self) -> Map<Seq<char>, usize> {
        Map::new(
            |p: Seq<char>|
                self.buckets().contains_key(path_hash(p)) && self.buckets()[path_hash(p)]@.contains_key(
                    p,
                ),
            |p: Seq<char>| self.buckets()[path_hash(p)]@[p],
        )
    }

    /// The map without paths.
    pub fn new() -> (m: Self)
        ensures
            m.wf(),
            m@ == Map::<Seq<char>, usize>::empty(),
    {
        let m = RouteMap { buckets: HashMap::new() };
        assert(m@ =~= Map::<Seq<char>, usize>::empty());
        m
    }

    /// The number that a path leads to, if the map has the path.
    pub fn get(&self, path: &str) -> (found: Option<usize>)
        requires
            self.wf(),
        ensures
            found == if self@.contains_key(path@) {
                Some(self@[path@])
            } else {
                None
            },
    {
        let hash = hash_of(path);
        match self.buckets.get(&hash) {
            Some(bucket) => {
                assert(self.buckets().contains_key(hash) && self.buckets()[hash] == *bucket);
                match bucket.get(path) {
                    Some(index) => Some(*index),
                    None => None,
                }
            },
            None => None,
        }
    }

    /// Leads `path` to `index`, in place of where it led before.
    pub fn insert(&mut self, path: String, index: usize)
        requires
            old(self).wf(),
        ensures
            final(self).wf(),
            final(self)@ == old(self)@.insert(path@, index),
    {
        let ghost p = path@;
        let hash = hash_of(path.as_str());
        let mut bucket = match self.buckets.remove(&hash) {
            Some(bucket) => {
                assert(old(self).buckets().contains_key(hash) && old(self).buckets()[hash]
                    == bucket);
                bucket
            },
            None => StringMap::new(),
        };
        let ghost before = bucket@;
        bucket.insert(path, index);
        self.buckets.insert(hash, bucket);
        proof {
            assert forall|q: Seq<char>| self@.contains_key(q) == old(self)@.insert(
                p,
                index,
            ).contains_key(q) by {
                if path_hash(q) == hash {
                    assert(self.buckets()[hash]@ == before.insert(p, index));
                }
            }
            assert forall|q: Seq<char>| self@.contains_key(q) implies self@[q] == old(self)@.insert(
                p,
                index,
            )[q] by {
                if path_hash(q) == hash {
                    assert(self.buckets()[hash]@ == before.insert(p, index));
                }
            }
            assert(self@ =~= old(self)@.insert(p, index));
        }
    }
}

} // verus!
