//! A spinlock guarding one integer, modelled sequentially.
//!
//! A concurrent spinlock pairs an atomic flag with an unsafe cell and
//! spins until the flag is won.  Here the flag and the guarded integer are
//! plain state; the spin of `acquire` is rendered as the precondition that
//! the lock is free, exactly the condition under which the spin ends.

use vstd::prelude::*;

verus! {

/// A lock flag and the integer it guards.
pub struct Spinlock {
    locked: bool,
    data: i32,
}

impl Spinlock {
    /// Whether the lock is currently taken.
    pub closed spec fn is_locked(&self) -> bool {
        self.locked
    }

    /// The guarded integer.
    pub closed spec fn value(&self) -> i32 {
        self.data
    }

    /// An unlocked spinlock guarding `initial_value`.
    pub fn new(initial_value: i32) -> (s: Spinlock)
        ensures
            !s.is_locked(),
            s.value() == initial_value,
    {
        Spinlock { locked: false, data: initial_value }
    }

    /// Takes the lock.  The spin of the concurrent lock ends only once the
    /// flag is free; that condition is the precondition here.
    pub fn acquire(&mut self)
        requires
            !old(self).is_locked(),
        ensures
            final(self).is_locked(),
            final(self).value() == old(self).value(),
    {
        self.locked = true;
    }

    /// Releases the lock.
    pub fn release(&mut self)
        ensures
            !final(self).is_locked(),
            final(self).value() == old(self).value(),
    {
        self.locked = false;
    }

    /// Exclusive access to the guarded integer.
    pub fn get_mut(&mut self) -> (data: &mut i32)
        ensures
            *data == old(self).value(),
            final(self).value() == *final(data),
            final(self).is_locked() == old(self).is_locked(),
    {
        &mut self.data
    }

    /// Stores `n` into the guarded cell, but only while the lock is
    /// taken; fails without touching anything when it is free.
    pub fn set(&mut self, n: i32) -> (r: Result<(), ()>)
        ensures
            old(self).is_locked() ==> r is Ok && final(self).value() == n,
            !old(self).is_locked() ==> r is Err && final(self).value() == old(self).value(),
            final(self).is_locked() == old(self).is_locked(),
    {
        if self.locked {
            self.data = n;
            Ok(())
        } else {
            Err(())
        }
    }
}

/// Adds up one chunk of the shared vector, as one worker thread does.  The
/// sum of `i8` values fits an `i32` as long as the chunk is not absurdly
/// long.
pub fn sum_inside_thread(vector: &[i8]) -> (sum: i32)
    requires
        vector@.len() * 128 <= i32::MAX,
    ensures
        sum == sum_spec(vector@),
{
    let mut local_sum: i32 = 0;
    let mut i: usize = 0;
    while i < vector.len()
        invariant
            0 <= i <= vector@.len(),
            vector@.len() * 128 <= i32::MAX,
            local_sum == sum_spec(vector@.take(i as int)),
            -128 * i <= local_sum <= 127 * i,
        decreases vector@.len() - i,
    {
        proof {
            assert(vector@.take(i + 1).drop_last() =~= vector@.take(i as int));
        }
        let value_as_i32 = vector[i] as i32;
        local_sum = local_sum + value_as_i32;
        i = i + 1;
    }
    proof {
        assert(vector@.take(vector@.len() as int) =~= vector@);
    }
    local_sum
}

/// The mathematical sum of a sequence of bytes.
pub open spec fn sum_spec(s: Seq<i8>) -> int
    decreases s.len(),
{
    if s.len() == 0 {
        0
    } else {
        sum_spec(s.drop_last()) + s.last()
    }
}

} // verus!
