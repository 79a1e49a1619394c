//! Exponential backoff with a cap and a bounded attempt counter.

use vstd::prelude::*;
use vstd::arithmetic::power2::{pow2, lemma_pow2_unfold, lemma2_to64, lemma_pow2_strictly_increases};

verus! {

/// Upper bound on any single backoff delay, in milliseconds.
pub const MAX_DELAY_MS: u64 = 10_000;

/// Delay before the first retry, in milliseconds.
pub const BASE_DELAY_MS: u64 = 1_000;

/// Attempts allowed to a whole linear download.
pub const TRANSPORT_MAX_RETRIES: u32 = 5;

/// Attempts allowed to a single chunk of a concurrent download.
pub const CHUNK_MAX_RETRIES: u32 = 10;

/// The delay that follows failed attempt number `attempt` (counted from zero):
/// the base delay doubled `attempt` times, capped at [`MAX_DELAY_MS`].
pub open spec fn backoff_delay_ms(base: nat, attempt: nat) -> nat {
    if base * pow2(attempt) < MAX_DELAY_MS as nat {
        base * pow2(attempt)
    } else {
        MAX_DELAY_MS as nat
    }
}

/// A stateful retry counter. One policy belongs to one retry site.
pub struct RetryPolicy {
    max_retries: u32,
    current_attempt: u32,
    base_delay_ms: u64,
}

impl RetryPolicy {
    /// Number of attempts this policy grants in total.
    pub closed spec fn max_retries(&self) -> nat {
        self.max_retries as nat
    }

    /// Number of delays handed out so far.
    pub closed spec fn attempts_made(&self) -> nat {
        self.current_attempt as nat
    }

    /// The base delay in milliseconds.
    pub closed spec fn base_delay(&self) -> nat {
        self.base_delay_ms as nat
    }

    /// The counter never runs past its limit.
    #[verifier::type_invariant]
    spec fn counter_within_limit(&self) -> bool {
        self.current_attempt <= self.max_retries
    }

    /// A policy that grants `max_retries` attempts, the first delay being a second.
    pub fn new(max_retries: u32) -> (policy: Self)
        ensures
            policy.max_retries() == max_retries,
            policy.attempts_made() == 0,
            policy.base_delay() == BASE_DELAY_MS,
    {
        RetryPolicy { max_retries, current_attempt: 0, base_delay_ms: BASE_DELAY_MS }
    }

    /// A policy whose first delay is `base_delay_ms` milliseconds.
    pub fn with_base_delay(max_retries: u32, base_delay_ms: u64) -> (policy: Self)
        ensures
            policy.max_retries() == max_retries,
            policy.attempts_made() == 0,
            policy.base_delay() == base_delay_ms,
    {
        RetryPolicy { max_retries, current_attempt: 0, base_delay_ms }
    }

    /// Attempts still available.
    pub fn remaining(&self) -> (left: u32)
        ensures
            left == self.max_retries() - self.attempts_made(),
    {
        proof {
            use_type_invariant(self);
        }
        self.max_retries - self.current_attempt
    }

    /// Hands out the next delay in milliseconds, or `None` once the limit is reached.
    pub fn next_backoff(&mut self) -> (delay: Option<u64>)
        ensures
            final(self).max_retries() == old(self).max_retries(),
            final(self).base_delay() == old(self).base_delay(),
            old(self).attempts_made() >= old(self).max_retries() ==> delay.is_none()
                && final(self).attempts_made() == old(self).attempts_made(),
            old(self).attempts_made() < old(self).max_retries() ==> delay == Some(
                backoff_delay_ms(old(self).base_delay(), old(self).attempts_made()) as u64,
            ) && final(self).attempts_made() == old(self).attempts_made() + 1,
    {
        if self.current_attempt >= self.max_retries {
            return None;
        }
        let delay = capped_delay(self.base_delay_ms, self.current_attempt);
        self.current_attempt = self.current_attempt + 1;
        Some(delay)
    }
}

/// Doubling never brings a product back under a bound it has reached.
proof fn lemma_doubling_monotone(base: nat, lo: nat, hi: nat)
    requires
        lo <= hi,
    ensures
        base * pow2(lo) <= base * pow2(hi),
{
    if lo < hi {
        lemma_pow2_strictly_increases(lo, hi);
    }
    assert(base * pow2(lo) <= base * pow2(hi)) by (nonlinear_arith)
        requires
            pow2(lo) <= pow2(hi),
    ;
}

/// Computes `backoff_delay_ms` without overflow: doubling stops at the cap.
fn capped_delay(base: u64, attempt: u32) -> (delay: u64)
    ensures
        delay == backoff_delay_ms(base as nat, attempt as nat),
        delay <= MAX_DELAY_MS,
{
    proof {
        lemma2_to64();
    }
    if base >= MAX_DELAY_MS {
        proof {
            lemma_doubling_monotone(base as nat, 0, attempt as nat);
        }
        return MAX_DELAY_MS;
    }
    let mut delay: u64 = base;
    let mut done: u32 = 0;
    while done < attempt
        invariant
            done <= attempt,
            delay < MAX_DELAY_MS,
            delay == base * pow2(done as nat),
        decreases attempt - done,
    {
        proof {
            lemma_pow2_unfold(done as nat + 1);
            assert(base * (2 * pow2(done as nat)) == 2 * (base * pow2(done as nat)))
                by (nonlinear_arith);
        }
        if delay >= MAX_DELAY_MS / 2 {
            proof {
                lemma_doubling_monotone(base as nat, done as nat + 1, attempt as nat);
            }
            return MAX_DELAY_MS;
        }
        delay = delay * 2;
        done = done + 1;
    }
    delay
}

} // verus!
