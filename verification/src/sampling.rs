//! Reservoir sampling of slot numbers.
//!
//! A reservoir of `size` slots keeps `base` of them selected. Each request
//! draws a slot number and is sampled when that slot is selected.

use bit_set::BitSet;
use vstd::prelude::*;

verus! {

/// Number of slots a request draws from.
pub const DEFAULT_RESERVOIR_SIZE: usize = 100;

/// The bit set of the `bit-set` crate, known by the numbers it holds.
#[verifier::external_type_specification]
#[verifier::external_body]
#[verifier::reject_recursive_types(B)]
pub struct ExBitSet<B>(BitSet<B>);

/// The numbers that a bit set holds.
pub uninterp spec fn bitset_slots(s: BitSet<u32>) -> Set<usize>;

/// `BitSet::new`: the set that holds no number.
#[verifier::external_body]
pub(crate) fn bitset_new() -> (s: BitSet<u32>)
    ensures
        bitset_slots(s) == Set::<usize>::empty(),
{
    BitSet::new()
}

/// `BitSet::insert`: the number is in the set afterwards and nothing else
/// changes; the result tells whether it was absent before. The top value of
/// `usize` is left out, for which the set cannot grow its storage.
#[verifier::external_body]
pub(crate) fn bitset_insert(s: &mut BitSet<u32>, value: usize) -> (added: bool)
    requires
        value < usize::MAX,
    ensures
        bitset_slots(*final(s)) == bitset_slots(*old(s)).insert(value),
        added == !bitset_slots(*old(s)).contains(value),
{
    s.insert(value)
}

/// `BitSet::remove`: the number is out of the set afterwards and nothing else
/// changes; the result tells whether it was present before.
#[verifier::external_body]
pub(crate) fn bitset_remove(s: &mut BitSet<u32>, value: usize) -> (removed: bool)
    ensures
        bitset_slots(*final(s)) == bitset_slots(*old(s)).remove(value),
        removed == bitset_slots(*old(s)).contains(value),
{
    s.remove(value)
}

/// `BitSet::contains`: membership of the number.
#[verifier::external_body]
pub(crate) fn bitset_contains(s: &BitSet<u32>, value: usize) -> (found: bool)
    ensures
        found == bitset_slots(*s).contains(value),
{
    s.contains(value)
}

/// `Rng::gen_range` on the thread's generator, over `0..bound`: some number
/// below the bound. Which one is not determined.
#[verifier::external_body]
pub(crate) fn random_below(bound: usize) -> (n: usize)
    requires
        bound > 0,
    ensures
        n < bound,
{
    rand::Rng::gen_range(&mut rand::thread_rng(), 0..bound)
}

/// The lesser of two numbers.
pub open spec fn min_of(a: int, b: int) -> int {
    if a <= b {
        a
    } else {
        b
    }
}

/// The first `n` slot numbers, each at its own position.
pub open spec fn first_slots(n: nat) -> Seq<usize> {
    Seq::new(n, |i: int| i as usize)
}

/// A reservoir under construction: the slot selected at each logical
/// position, and the same slots as a set.
pub struct Reservoir {
    slots: BitSet<u32>,
    chosen: Vec<usize>,
}

impl Reservoir {
    /// The slot at each logical position.
    pub closed spec fn view(&self) -> Seq<usize> {
        self.chosen@
    }

    /// The selected slots.
    pub closed spec fn selected(&self) -> Set<usize> {
        bitset_slots(self.slots)
    }

    /// Every position holds a slot of its own, and the set holds exactly
    /// those slots.
    pub open spec fn wf(&self) -> bool {
        &&& self@.no_duplicates()
        &&& self.selected() =~= self@.to_set()
    }

    /// Every selected slot lies below `bound`.
    pub open spec fn below(&self, bound: int) -> bool {
        forall|p: int| 0 <= p < self@.len() ==> #[trigger] self@[p] < bound
    }

    /// Selects the first `count` slots, slot `i` at position `i`.
    pub fn with_first(count: usize) -> (r: Self)
        ensures
            r.wf(),
            r@ == first_slots(count as nat),
    {
        let mut slots = bitset_new();
        let mut chosen: Vec<usize> = Vec::new();
        let mut i: usize = 0;
        while i < count
            invariant
                i <= count,
                chosen@ == first_slots(i as nat),
                bitset_slots(slots) =~= chosen@.to_set(),
            decreases count - i,
        {
            let ghost before = chosen@;
            chosen.push(i);
            bitset_insert(&mut slots, i);
            proof {
                assert(chosen@ =~= first_slots((i + 1) as nat));
                assert(chosen@.to_set() =~= before.to_set().insert(i)) by {
                    assert forall|x: usize| chosen@.to_set().contains(x) implies before.to_set().insert(
                        i,
                    ).contains(x) by {
                        let p = choose|p: int| 0 <= p < chosen@.len() && chosen@[p] == x;
                        if p < before.len() {
                            assert(before[p] == x);
                        }
                    }
                    assert forall|x: usize| before.to_set().insert(i).contains(
                        x,
                    ) implies chosen@.to_set().contains(x) by {
                        if x == i {
                            assert(chosen@[i as int] == x);
                        } else {
                            let p = choose|p: int| 0 <= p < before.len() && before[p] == x;
                            assert(chosen@[p] == x);
                        }
                    }
                }
            }
            i += 1;
        }
        Reservoir { slots, chosen }
    }

    /// Offers slot `slot` with the draw `draw`: a draw that names a position
    /// puts the slot there in place of the one that held it; any other draw
    /// changes nothing.
    pub fn offer(&mut self, slot: usize, draw: usize)
        requires
            old(self).wf(),
            old(self).below(slot as int),
            slot < usize::MAX,
        ensures
            final(self).wf(),
            final(self).below(slot + 1),
            final(self)@ == if draw < old(self)@.len() {
                old(self)@.update(draw as int, slot)
            } else {
                old(self)@
            },
    {
        if draw < self.chosen.len() {
            let ghost before = self.chosen@;
            let evicted = self.chosen[draw];
            bitset_remove(&mut self.slots, evicted);
            bitset_insert(&mut self.slots, slot);
            self.chosen.set(draw, slot);
            proof {
                let after = self.chosen@;
                assert(after == before.update(draw as int, slot));
                assert forall|p: int, q: int|
                    0 <= p < after.len() && 0 <= q < after.len() && p != q implies after[p]
                    != after[q] by {
                    if p != draw && q != draw {
                        assert(before[p] != before[q]);
                    } else if p == draw {
                        assert(before[q] < slot);
                    } else {
                        assert(before[p] < slot);
                    }
                }
                assert forall|x: usize| after.to_set().contains(x) implies before.to_set().remove(
                    evicted,
                ).insert(slot).contains(x) by {
                    let p = choose|p: int| 0 <= p < after.len() && after[p] == x;
                    if p != draw {
                        assert(before[p] == x);
                        assert(before[p] != before[draw as int]);
                    }
                }
                assert forall|x: usize|
                    before.to_set().remove(evicted).insert(slot).contains(
                        x,
                    ) implies after.to_set().contains(x) by {
                    if x == slot {
                        assert(after[draw as int] == x);
                    } else {
                        let p = choose|p: int| 0 <= p < before.len() && before[p] == x;
                        assert(p != draw);
                        assert(after[p] == x);
                    }
                }
                assert(after.to_set() =~= before.to_set().remove(evicted).insert(slot));
            }
        }
    }

    /// The selected slots, as the set that requests are tested against.
    pub fn into_set(self) -> (s: BitSet<u32>)
        ensures
            bitset_slots(s) == self.selected(),
    {
        self.slots
    }
}

/// Builds the set of selected slots of a reservoir of `size` slots, of which
/// `base` are to be selected.
///
/// The first `base` slots are selected outright, as far as there are slots.
/// Every later slot `i` draws a number in `0..=i`; a draw below `base` names
/// the logical position whose slot it replaces. Whatever is drawn, the set
/// holds `min(base, size)` slots, all below `size`: none where `base` is 0,
/// every slot where `base` reaches `size`.
pub fn random_set(size: usize, base: usize) -> (s: BitSet<u32>)
    ensures
        bitset_slots(s).finite(),
        bitset_slots(s).len() == min_of(base as int, size as int),
        forall|n: usize| bitset_slots(s).contains(n) ==> n < size,
        base >= size ==> forall|n: usize| n < size ==> bitset_slots(s).contains(n),
{
    let kept = if base <= size {
        base
    } else {
        size
    };
    let mut reservoir = Reservoir::with_first(kept);
    let mut i: usize = kept;
    while i < size
        invariant
            kept <= i <= size,
            reservoir.wf(),
            reservoir.below(i as int),
            reservoir@.len() == kept,
            kept == size ==> reservoir@ == first_slots(size as nat),
        decreases size - i,
    {
        let draw = random_below(i + 1);
        reservoir.offer(i, draw);
        i += 1;
    }
    proof {
        reservoir@.unique_seq_to_set();
        vstd::seq_lib::seq_to_set_is_finite(reservoir@);
        assert forall|n: usize| reservoir.selected().contains(n) implies n < size by {
            let p = choose|p: int| 0 <= p < reservoir@.len() && reservoir@[p] == n;
            assert(reservoir@[p] < i);
        }
        if base >= size {
            assert forall|n: usize| n < size implies reservoir.selected().contains(n) by {
                assert(reservoir@[n as int] == n);
            }
        }
    }
    reservoir.into_set()
}

} // verus!
