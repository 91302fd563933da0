//! Bounded exponential backoff shared by chain reconnects and registration retries.

use vstd::prelude::*;

verus! {

/// Delay before the first retry, in seconds.
pub const INITIAL_BACKOFF_SECS: u64 = 1;

/// Largest delay between two attempts, in seconds.
pub const MAX_BACKOFF_SECS: u64 = 60;

/// Delay before retry number `attempt` (counting from zero): doubles each time
/// from the initial delay and stays at the cap once it reaches it.
pub open spec fn backoff_secs(attempt: nat) -> nat
    decreases attempt,
{
    if attempt == 0 {
        INITIAL_BACKOFF_SECS as nat
    } else {
        let prev = backoff_secs((attempt - 1) as nat);
        if 2 * prev >= MAX_BACKOFF_SECS {
            MAX_BACKOFF_SECS as nat
        } else {
            2 * prev
        }
    }
}

/// Every delay lies between the initial delay and the cap.
pub proof fn lemma_backoff_bounded(attempt: nat)
    ensures
        INITIAL_BACKOFF_SECS <= backoff_secs(attempt) <= MAX_BACKOFF_SECS,
    decreases attempt,
{
    if attempt > 0 {
        lemma_backoff_bounded((attempt - 1) as nat);
    }
}

/// Once the cap is reached the delay stays there.
pub proof fn lemma_backoff_capped(n: nat, m: nat)
    requires
        n <= m,
        backoff_secs(n) == MAX_BACKOFF_SECS,
    ensures
        backoff_secs(m) == MAX_BACKOFF_SECS,
    decreases m - n,
{
    if m > n {
        lemma_backoff_capped(n, (m - 1) as nat);
    }
}

/// The delay never shrinks from one attempt to the next.
pub proof fn lemma_backoff_monotone(attempt: nat)
    ensures
        backoff_secs(attempt) <= backoff_secs(attempt + 1),
{
    lemma_backoff_bounded(attempt);
}

/// Seconds to wait before retry number `attempt`.
pub fn backoff_delay(attempt: u32) -> (r: u64)
    ensures
        r == backoff_secs(attempt as nat),
        INITIAL_BACKOFF_SECS <= r <= MAX_BACKOFF_SECS,
{
    let mut delay: u64 = INITIAL_BACKOFF_SECS;
    let mut i: u32 = 0;
    while i < attempt && delay < MAX_BACKOFF_SECS
        invariant
            i <= attempt,
            delay == backoff_secs(i as nat),
            INITIAL_BACKOFF_SECS <= delay <= MAX_BACKOFF_SECS,
        decreases attempt - i,
    {
        delay = if delay * 2 >= MAX_BACKOFF_SECS {
            MAX_BACKOFF_SECS
        } else {
            delay * 2
        };
        i = i + 1;
    }
    proof {
        if i < attempt {
            lemma_backoff_capped(i as nat, attempt as nat);
        }
    }
    delay
}

} // verus!
