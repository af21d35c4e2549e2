//! Items that could not be finished in one cycle and wait for the next.

use vstd::prelude::*;

verus! {

/// A first-in, first-out list of items to take up again in the next cycle.
pub struct RetryQueue<T> {
    items: Vec<T>,
}

impl<T> RetryQueue<T> {
    /// The waiting items, oldest first.
    pub closed spec fn view(&self) -> Seq<T> {
        self.items@
    }

    pub fn new() -> (q: Self)
        ensures
            q@ == Seq::<T>::empty(),
    {
        RetryQueue { items: Vec::new() }
    }

    /// Puts `item` behind every item that already waits.
    pub fn push(&mut self, item: T)
        ensures
            final(self)@ == old(self)@.push(item),
    {
        self.items.push(item);
    }

    /// Takes every waiting item out, oldest first, and leaves the queue empty.
    pub fn drain_all(&mut self) -> (drained: Vec<T>)
        ensures
            drained@ == old(self)@,
            final(self)@ == Seq::<T>::empty(),
    {
        let mut drained: Vec<T> = Vec::new();
        std::mem::swap(&mut self.items, &mut drained);
        drained
    }

    pub fn len(&self) -> (n: usize)
        ensures
            n == self@.len(),
    {
        self.items.len()
    }

    pub fn is_empty(&self) -> (empty: bool)
        ensures
            empty == (self@.len() == 0),
    {
        self.items.len() == 0
    }
}

} // verus!
