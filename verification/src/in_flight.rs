//! The set of staging buffers that have a map operation outstanding.

use std::collections::HashSet;
use vstd::prelude::*;

use crate::ids::BufferRef;

verus! {

broadcast use vstd::std_specs::hash::group_hash_axioms;

/// Staging buffers with an outstanding map. A buffer enters when its map is
/// issued and leaves when its unmap is acknowledged, so no buffer is ever
/// mapped twice at once.
pub struct InFlightSet {
    buffers: HashSet<u64>,
}

impl InFlightSet {
    /// The buffers that are in flight.
    pub closed spec fn view(&self) -> Set<BufferRef> {
        Set::new(|b: BufferRef| self.buffers@.contains(b.0))
    }

    pub fn new() -> (s: Self)
        ensures
            s@ == Set::<BufferRef>::empty(),
    {
        let s = InFlightSet { buffers: HashSet::new() };
        assert(s@ =~= Set::<BufferRef>::empty());
        s
    }

    /// Whether `buffer` has a map outstanding.
    pub fn contains(&self, buffer: BufferRef) -> (busy: bool)
        ensures
            busy == self@.contains(buffer),
    {
        self.buffers.contains(&buffer.0)
    }

    /// Claims `buffer` for a map. Returns `false`, and changes nothing, when the
    /// buffer is already in flight.
    pub fn try_acquire(&mut self, buffer: BufferRef) -> (acquired: bool)
        ensures
            acquired == !old(self)@.contains(buffer),
            final(self)@ == old(self)@.insert(buffer),
    {
        let acquired = self.buffers.insert(buffer.0);
        assert(self@ =~= old(self)@.insert(buffer));
        acquired
    }

    /// Takes `buffer` out after its unmap. Returns whether it was in flight.
    pub fn release(&mut self, buffer: BufferRef) -> (was_busy: bool)
        ensures
            was_busy == old(self)@.contains(buffer),
            final(self)@ == old(self)@.remove(buffer),
    {
        let was_busy = self.buffers.remove(&buffer.0);
        assert(self@ =~= old(self)@.remove(buffer));
        was_busy
    }

    /// Takes out every buffer of `released`.
    pub fn release_all(&mut self, released: &Vec<BufferRef>)
        ensures
            final(self)@ == old(self)@.difference(released@.to_set()),
    {
        let mut i: usize = 0;
        while i < released.len()
            invariant
                i <= released.len(),
                self@ == old(self)@.difference(released@.take(i as int).to_set()),
            decreases released.len() - i,
        {
            let buffer = released[i];
            self.release(buffer);
            proof {
                let before = released@.take(i as int);
                let after = released@.take(i + 1);
                assert(after =~= before.push(buffer));
                assert forall|b: BufferRef| after.to_set().contains(b) <==> (before.to_set().contains(b) || b == buffer) by {
                    if after.contains(b) {
                        let k = choose|k: int| 0 <= k < after.len() && after[k] == b;
                        if k < before.len() {
                            assert(before[k] == b);
                        }
                    }
                    if before.contains(b) {
                        let k = choose|k: int| 0 <= k < before.len() && before[k] == b;
                        assert(after[k] == b);
                    }
                    if b == buffer {
                        assert(after[i as int] == b);
                    }
                }
                assert(self@ =~= old(self)@.difference(after.to_set()));
            }
            i += 1;
        }
        assert(released@.take(released.len() as int) =~= released@);
    }
}

} // verus!
