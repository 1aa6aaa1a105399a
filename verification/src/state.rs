//! The state that every request consults: the selected slots and a counter.

use crate::sampling::{bitset_contains, bitset_slots, min_of, random_set, DEFAULT_RESERVOIR_SIZE};
use bit_set::BitSet;
use std::sync::atomic::AtomicUsize;
use vstd::prelude::*;

verus! {

/// What is shared by all requests besides the route table: the slots whose
/// requests are sampled, and a counter.
pub struct ContextState {
    pub sampling: BitSet<u32>,
    pub counter: AtomicUsize,
}

impl ContextState {
    /// The slots whose requests are sampled.
    pub open spec fn selected(&self) -> Set<usize> {
        bitset_slots(self.sampling)
    }

    /// State for a proxy that samples `percentage` slots of every
    /// `DEFAULT_RESERVOIR_SIZE`; a percentage above that selects them all.
    pub fn with_percentage(percentage: usize) -> (state: Self)
        ensures
            state.selected().finite(),
            state.selected().len() == min_of(percentage as int, DEFAULT_RESERVOIR_SIZE as int),
            forall|n: usize| state.selected().contains(n) ==> n < DEFAULT_RESERVOIR_SIZE,
            percentage >= DEFAULT_RESERVOIR_SIZE ==> forall|n: usize|
                n < DEFAULT_RESERVOIR_SIZE ==> state.selected().contains(n),
    {
        ContextState {
            sampling: random_set(DEFAULT_RESERVOIR_SIZE, percentage),
            counter: AtomicUsize::new(0),
        }
    }

    /// Whether a request that drew slot `sn` is sampled.
    pub fn should_sampling(&self, sn: usize) -> (sampled: bool)
        ensures
            sampled == self.selected().contains(sn),
    {
        bitset_contains(&self.sampling, sn)
    }
}

} // verus!
