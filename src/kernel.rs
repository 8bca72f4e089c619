//! The unit of CPU work that a probe repeats: a trial-division primality test.

use vstd::prelude::*;

verus! {

/// The constant whose primality a probe tests once per unit of work.
pub const PRIME: u64 = 7919;

/// No integer in `2..n` divides `n` (so `0` and `1` count as prime, as trial
/// division with an empty range of divisors reports).
pub open spec fn spec_is_prime(n: u64) -> bool {
    forall|a: u64| 2 <= a < n ==> #[trigger] (n % a) != 0
}

/// Trial division of `n` by every integer in `2..n`.
pub fn is_prime(n: u64) -> (r: bool)
    ensures
        r == spec_is_prime(n),
{
    let mut a: u64 = 2;
    while a < n
        invariant
            2 <= a,
            forall|b: u64| 2 <= b < a ==> #[trigger] (n % b) != 0,
        decreases n - a,
    {
        if n % a == 0 {
            return false;
        }
        a = a + 1;
    }
    true
}

/// One unit of busy work: the primality test of [`PRIME`].
pub fn busy_work_unit() -> (r: bool)
    ensures
        r == spec_is_prime(PRIME),
{
    is_prime(PRIME)
}

} // verus!
