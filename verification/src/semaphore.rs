//! A counting semaphore, modelled sequentially.
//!
//! A concurrent semaphore guards a counter with a lock and blocks on a
//! condition variable until a permit is available.  Here the counter is the
//! whole state and blocking is rendered as a precondition: `wait` may only
//! be called when a permit is available, exactly the condition under which
//! the blocking call returns.

use vstd::prelude::*;

verus! {

/// A counting semaphore: holds the number of available permits.
#[derive(Debug)]
pub struct Semaphore {
    counter: usize,
}

impl Semaphore {
    /// The number of permits currently available.
    pub closed spec fn permits(&self) -> usize {
        self.counter
    }

    /// A semaphore with `count` permits.
    pub fn new(count: usize) -> (s: Semaphore)
        ensures
            s.permits() == count,
    {
        Semaphore { counter: count }
    }

    /// How many permits are available right now.
    pub fn available_threads(&self) -> (count: usize)
        ensures
            count == self.permits(),
    {
        self.counter
    }

    /// Takes one permit.  The blocking wait of the concurrent semaphore
    /// returns only once a permit is available; that condition is the
    /// precondition here.
    pub fn wait(&mut self)
        requires
            old(self).permits() > 0,
        ensures
            final(self).permits() == old(self).permits() - 1,
    {
        self.counter = self.counter - 1;
    }

    /// Returns one permit, waking one waiter.
    pub fn signal(&mut self)
        requires
            old(self).permits() < usize::MAX,
        ensures
            final(self).permits() == old(self).permits() + 1,
    {
        self.counter = self.counter + 1;
    }
}

} // verus!
