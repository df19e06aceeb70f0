//! The consumer's primality test, by trial division.
//!
//! The test divides by every candidate from 2 up to, and excluding, half
//! the number, and by nothing else: numbers below six are all reported
//! prime, since no candidate is tried for them.  The contract states that
//! behaviour precisely.

use vstd::prelude::*;

verus! {

/// What the trial-division check reports: no candidate divisor `d` with
/// `2 <= d` and `2 * d + 2 <= n` divides `n`.  The bound is the integer
/// half of `n`: the candidates are exactly `2 .. n / 2`.
pub open spec fn trial_division_prime(n: i32) -> bool {
    forall|d: int| 2 <= d && 2 * d + 2 <= n ==> #[trigger] (n as int % d) != 0
}

/// Reports whether a number passes trial division by 2 up to half of it.
pub fn is_prime(n: i32) -> (prime: bool)
    ensures
        prime == trial_division_prime(n),
{
    if n <= 5 {
        return true;
    }
    let half = n / 2;
    proof {
        assert(half == n as int / 2);
    }
    let mut den: i32 = 2;
    while den < half
        invariant
            2 <= den <= half,
            half == n as int / 2,
            6 <= n,
            forall|d: int| 2 <= d < den ==> #[trigger] (n as int % d) != 0,
        decreases half - den,
    {
        if n % den == 0 {
            proof {
                assert(2 * (den as int) + 2 <= n as int);
                assert(n as int % (den as int) == 0);
            }
            return false;
        }
        den = den + 1;
    }
    proof {
        assert forall|d: int| 2 <= d && 2 * d + 2 <= n implies #[trigger] (n as int % d) != 0 by {
            assert(d < half);
        }
    }
    true
}

} // verus!
