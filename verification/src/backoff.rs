//! Retry policy for rate-limited page requests: the wait doubles with each
//! attempt and the run gives up after a fixed number of retries.

use vstd::prelude::*;

verus! {

/// Number of retries granted to a rate-limited request before the run fails.
pub const MAX_RETRIES: u64 = 5;

/// Two to the power `n`.
pub open spec fn spec_pow2(n: nat) -> nat
    decreases n,
{
    if n == 0 {
        1
    } else {
        2 * spec_pow2((n - 1) as nat)
    }
}

/// The wait before retry number `attempt`, in milliseconds: one second
/// doubled per attempt already made.
pub open spec fn spec_backoff_wait_ms(attempt: u64) -> nat {
    spec_pow2(attempt as nat) * 1000
}

/// Whether the fetch run must stop retrying and fail.
pub fn should_give_up(attempt: u64) -> (r: bool)
    ensures
        r == (attempt > MAX_RETRIES),
{
    attempt > MAX_RETRIES
}

proof fn lemma_pow2_small(n: nat)
    requires
        n <= MAX_RETRIES,
    ensures
        spec_pow2(n) <= 32,
{
    assert(spec_pow2(0) == 1);
    assert(spec_pow2(1) == 2);
    assert(spec_pow2(2) == 4);
    assert(spec_pow2(3) == 8);
    assert(spec_pow2(4) == 16);
    assert(spec_pow2(5) == 32);
    assert(n == 0 || n == 1 || n == 2 || n == 3 || n == 4 || n == 5);
}

/// The wait, in milliseconds, before retrying a rate-limited request for the
/// `attempt`-th time.
pub fn next_wait_ms(attempt: u64) -> (r: u64)
    requires
        attempt <= MAX_RETRIES,
    ensures
        r == spec_backoff_wait_ms(attempt),
{
    let mut w: u64 = 1000;
    let mut i: u64 = 0;
    while i < attempt
        invariant
            i <= attempt <= MAX_RETRIES,
            w == spec_pow2(i as nat) * 1000,
        decreases attempt - i,
    {
        proof {
            lemma_pow2_small((i + 1) as nat);
            assert(spec_pow2((i + 1) as nat) == 2 * spec_pow2(i as nat));
        }
        w = w * 2;
        i += 1;
    }
    w
}

} // verus!
