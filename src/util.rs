//! Monotonic identifiers.

use vstd::prelude::*;

verus! {

/// Hands out consecutive numeric identifiers.
#[derive(Debug)]
pub struct IdGenerator {
    next: u64,
}

impl IdGenerator {
    /// The identifier the next call of `next` returns.
    pub closed spec fn peek(&self) -> u64 {
        self.next
    }

    /// A generator whose first identifier is `start`.
    pub fn new(start: u64) -> (g: IdGenerator)
        ensures
            g.peek() == start,
    {
        IdGenerator { next: start }
    }

    /// Returns the next identifier in sequence.
    pub fn next(&mut self) -> (id: u64)
        requires
            old(self).peek() < u64::MAX,
        ensures
            id == old(self).peek(),
            final(self).peek() == id + 1,
    {
        let id = self.next;
        self.next = id + 1;
        id
    }
}

impl Default for IdGenerator {
    fn default() -> (g: IdGenerator)
        ensures
            g.peek() == 1,
    {
        IdGenerator::new(1)
    }
}

} // verus!
