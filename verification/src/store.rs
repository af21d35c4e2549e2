//! The host-side store that resolved transfers are written to.

use std::collections::HashMap;
use vstd::prelude::*;

use crate::ids::DestinationId;

verus! {

broadcast use vstd::std_specs::hash::group_hash_axioms;

/// What a write of `value` to `destination` makes of a store: the slot of a
/// live destination holds `value` afterwards; a write to a destination that
/// is not live changes nothing.
pub open spec fn store_write<V>(
    store: Map<DestinationId, Option<V>>,
    destination: DestinationId,
    value: V,
) -> Map<DestinationId, Option<V>> {
    if store.contains_key(destination) {
        store.insert(destination, Some(value))
    } else {
        store
    }
}

/// Slots for resolved values, one per live destination. The store alone
/// decides how long a destination lives.
pub struct HostStore<V> {
    slots: HashMap<u64, Option<V>>,
}

impl<V> HostStore<V> {
    /// The live destinations, each with the value written to it last, if any.
    pub closed spec fn view(&self) -> Map<DestinationId, Option<V>> {
        Map::new(
            |d: DestinationId| self.slots@.contains_key(d.0),
            |d: DestinationId| self.slots@[d.0],
        )
    }

    pub fn new() -> (store: Self)
        ensures
            store@ == Map::<DestinationId, Option<V>>::empty(),
    {
        let store = HostStore { slots: HashMap::new() };
        assert(store@ =~= Map::<DestinationId, Option<V>>::empty());
        store
    }

    /// Makes `destination` live, with an empty slot. A destination that is
    /// live already keeps its slot.
    pub fn register(&mut self, destination: DestinationId)
        ensures
            final(self)@ == if old(self)@.contains_key(destination) {
                old(self)@
            } else {
                old(self)@.insert(destination, None)
            },
    {
        if !self.slots.contains_key(&destination.0) {
            self.slots.insert(destination.0, None);
            assert(self@ =~= old(self)@.insert(destination, None));
        }
    }

    /// Ends the life of `destination` and drops what its slot holds.
    pub fn retire(&mut self, destination: DestinationId)
        ensures
            final(self)@ == old(self)@.remove(destination),
    {
        self.slots.remove(&destination.0);
        assert(self@ =~= old(self)@.remove(destination));
    }

    pub fn is_live(&self, destination: DestinationId) -> (live: bool)
        ensures
            live == self@.contains_key(destination),
    {
        self.slots.contains_key(&destination.0)
    }

    /// Writes `value` to the slot of `destination`, in place of what it held.
    /// For a destination that is not live this does nothing, and is no error.
    pub fn write(&mut self, destination: DestinationId, value: V)
        ensures
            final(self)@ == store_write(old(self)@, destination, value),
            !old(self)@.contains_key(destination) ==> final(self)@ == old(self)@,
    {
        if self.slots.contains_key(&destination.0) {
            self.slots.insert(destination.0, Some(value));
            assert(self@ =~= old(self)@.insert(destination, Some(value)));
        }
    }

    /// Takes the value out of the slot of `destination` and leaves the slot
    /// empty. The destination stays as live as it was.
    pub fn take(&mut self, destination: DestinationId) -> (value: Option<V>)
        ensures
            value == if old(self)@.contains_key(destination) {
                old(self)@[destination]
            } else {
                None
            },
            final(self)@ == if old(self)@.contains_key(destination) {
                old(self)@.insert(destination, None)
            } else {
                old(self)@
            },
    {
        match self.slots.remove(&destination.0) {
            Some(slot) => {
                self.slots.insert(destination.0, None);
                assert(self@ =~= old(self)@.insert(destination, None));
                slot
            },
            None => {
                assert(self@ =~= old(self)@);
                None
            },
        }
    }

    /// The value that the slot of `destination` holds, if the destination is
    /// live and was written to.
    pub fn get(&self, destination: DestinationId) -> (value: Option<&V>)
        ensures
            match value {
                Some(v) => self@.contains_key(destination) && self@[destination] == Some(*v),
                None => !self@.contains_key(destination) || self@[destination] is None,
            },
    {
        match self.slots.get(&destination.0) {
            Some(Some(v)) => Some(v),
            _ => None,
        }
    }
}

} // verus!
