//! The retry policy for transient content-fetch failures: a bounded
//! number of attempts with exponentially growing, capped delays. The
//! policy only decides; the caller performs the fetch, sleeps, and may
//! log each retry as it observes the decisions.

use vstd::arithmetic::mul::lemma_mul_inequality;
use vstd::prelude::*;

verus! {

/// Two to the power `k`.
pub open spec fn pow2(k: nat) -> nat
    decreases k,
{
    if k == 0 {
        1nat
    } else {
        2 * pow2((k - 1) as nat)
    }
}

proof fn lemma_pow2_mono(j: nat, k: nat)
    requires
        j <= k,
    ensures
        pow2(j) <= pow2(k),
    decreases k,
{
    if j < k {
        lemma_pow2_mono(j, (k - 1) as nat);
    }
}

/// The delay before retry number `failures` (counting failures so far):
/// the base delay doubled that many times, capped.
pub open spec fn backoff_delay(base: u64, cap: u64, failures: nat) -> int {
    if base * pow2(failures) < cap {
        base * pow2(failures)
    } else {
        cap as int
    }
}

/// What to do after one more failure: wait this many milliseconds and
/// try again, or stop retrying.
#[derive(Debug, PartialEq, Eq, Structural)]
pub enum RetryDecision {
    Retry(u64),
    GiveUp,
}

/// A bounded exponential backoff policy: at most `max_retries` retries,
/// the first after `base_delay_ms`, each next delay doubled, never more
/// than `max_delay_ms`.
#[derive(Clone, Copy, Debug, PartialEq, Eq, Structural)]
pub struct RetryPolicy {
    pub max_retries: u32,
    pub base_delay_ms: u64,
    pub max_delay_ms: u64,
}

impl Default for RetryPolicy {
    /// Three retries, starting at one second, capped at one minute.
    fn default() -> (r: Self)
        ensures
            r.max_retries == 3,
            r.base_delay_ms == 1000,
            r.max_delay_ms == 60000,
    {
        RetryPolicy { max_retries: 3, base_delay_ms: 1000, max_delay_ms: 60000 }
    }
}

impl RetryPolicy {
    /// Decide what follows the `failures`-th consecutive failure (zero
    /// based): retry after the exact backoff delay while attempts
    /// remain, else give up.
    pub fn decide(&self, failures: u32) -> (r: RetryDecision)
        ensures
            failures >= self.max_retries ==> r == RetryDecision::GiveUp,
            failures < self.max_retries ==> r == RetryDecision::Retry(
                backoff_delay(self.base_delay_ms, self.max_delay_ms, failures as nat) as u64,
            ),
    {
        if failures >= self.max_retries {
            return RetryDecision::GiveUp;
        }
        let cap = self.max_delay_ms;
        let mut d: u64 = if self.base_delay_ms < cap {
            self.base_delay_ms
        } else {
            cap
        };
        let mut j: u32 = 0;
        proof {
            assert(pow2(0) == 1);
            assert(self.base_delay_ms * pow2(0) == self.base_delay_ms);
        }
        while j < failures && d < cap
            invariant
                j <= failures,
                d <= cap,
                d == backoff_delay(self.base_delay_ms, cap, j as nat),
            decreases failures - j,
        {
            proof {
                assert(self.base_delay_ms * pow2(j as nat + 1) == 2 * (self.base_delay_ms * pow2(
                    j as nat,
                ))) by (nonlinear_arith)
                    requires
                        pow2(j as nat + 1) == 2 * pow2(j as nat),
                ;
            }
            if d > cap / 2 {
                d = cap;
            } else {
                d = d * 2;
            }
            j = j + 1;
        }
        proof {
            if j < failures {
                lemma_pow2_mono(j as nat, failures as nat);
                lemma_mul_inequality(
                    pow2(j as nat) as int,
                    pow2(failures as nat) as int,
                    self.base_delay_ms as int,
                );
            }
        }
        RetryDecision::Retry(d)
    }
}

} // verus!
