//! Token-bucket rate limiting for transaction sends.
//!
//! Token amounts are kept in thousandths, so partial refills are not lost.

use vstd::prelude::*;

use crate::clock::instant_now;
use crate::clock::{nanos_between, nanos_to_millis};
use std::time::Instant;

verus! {


/// The number of thousandths to add after `elapsed_ms` milliseconds at a
/// rate of `rate` thousandths per second, capped at the capacity. The
/// elapsed time is taken modulo 2^64, as a cast to `u64` does.
pub open spec fn refill_amount(elapsed_ms: u128, rate: u64, capacity: u64) -> int {
    let e = (elapsed_ms as u64) as int;
    let add = (e * rate) / 1000;
    if add <= capacity { add } else { capacity as int }
}

/// The token count after a refill from `tokens`.
pub open spec fn refilled(tokens: u64, elapsed_ms: u128, rate: u64, capacity: u64) -> u64 {
    if elapsed_ms > 0 {
        let t = tokens + refill_amount(elapsed_ms, rate, capacity);
        (if t <= capacity { t } else { capacity as int }) as u64
    } else {
        tokens
    }
}

/// Token bucket rate limiter.
#[derive(Debug)]
pub struct TokenBucketRateLimiter {
    /// Capacity, in thousandths of a token
    capacity: u64,
    /// Tokens held, in thousandths
    tokens: u64,
    /// Refill rate, in thousandths of a token per second
    refill_rate: u64,
    last_refill: Instant,
}

impl TokenBucketRateLimiter {
    pub closed spec fn capacity_spec(&self) -> u64 {
        self.capacity
    }

    pub closed spec fn tokens_spec(&self) -> u64 {
        self.tokens
    }

    pub closed spec fn rate_spec(&self) -> u64 {
        self.refill_rate
    }

    /// When the bucket was last refilled.
    pub closed spec fn last_refill_spec(&self) -> Instant {
        self.last_refill
    }

    /// The bucket never holds more than its capacity.
    pub closed spec fn wf(&self) -> bool {
        self.tokens <= self.capacity
    }

    /// A full bucket of `capacity` tokens refilled at `refill_rate_per_sec`.
    pub fn new(capacity: u64, refill_rate_per_sec: u64) -> (b: Self)
        requires
            capacity * 1000 <= u64::MAX,
            refill_rate_per_sec * 1000 <= u64::MAX,
        ensures
            b.wf(),
            b.capacity_spec() == capacity * 1000,
            b.tokens_spec() == capacity * 1000,
            b.rate_spec() == refill_rate_per_sec * 1000,
    {
        TokenBucketRateLimiter {
            capacity: capacity * 1000,
            tokens: capacity * 1000,
            refill_rate: refill_rate_per_sec * 1000,
            last_refill: instant_now(),
        }
    }

    /// Adds the tokens earned over `elapsed_ms` milliseconds, up to the
    /// capacity, and notes `now` as the time of the refill. Nothing happens
    /// when no time has passed.
    pub fn refill_after(&mut self, elapsed_ms: u128, now: Instant)
        requires
            old(self).wf(),
        ensures
            final(self).wf(),
            elapsed_ms > 0 ==> final(self).last_refill_spec() == now,
            elapsed_ms == 0 ==> final(self).last_refill_spec() == old(self).last_refill_spec(),
            final(self).capacity_spec() == old(self).capacity_spec(),
            final(self).rate_spec() == old(self).rate_spec(),
            final(self).tokens_spec() == refilled(old(self).tokens_spec(), elapsed_ms, old(self).rate_spec(), old(self).capacity_spec()),
    {
        if elapsed_ms > 0 {
            #[verifier::truncate]
            let e: u64 = elapsed_ms as u64;
            let r: u64 = self.refill_rate;
            assert((e as int) * (r as int) <= u128::MAX) by (nonlinear_arith)
                requires
                    e <= u64::MAX,
                    r <= u64::MAX,
            ;
            let prod: u128 = (e as u128) * (r as u128);
            let add: u128 = prod / 1000;
            let add_capped: u128 = if add <= self.capacity as u128 { add } else { self.capacity as u128 };
            let sum: u128 = self.tokens as u128 + add_capped;
            let new_tokens: u128 = if sum <= self.capacity as u128 { sum } else { self.capacity as u128 };
            self.tokens = new_tokens as u64;
            self.last_refill = now;
        }
    }

    fn refill(&mut self)
        requires
            old(self).wf(),
        ensures
            final(self).wf(),
            final(self).capacity_spec() == old(self).capacity_spec(),
            final(self).rate_spec() == old(self).rate_spec(),
            exists|e: u128| final(self).tokens_spec()
                == #[trigger] refilled(old(self).tokens_spec(), e, old(self).rate_spec(), old(self).capacity_spec()),
    {
        let now = instant_now();
        let e = nanos_to_millis(nanos_between(&now, &self.last_refill));
        self.refill_after(e, now);
    }

    /// Takes `tokens` whole tokens if the bucket holds that many.
    pub fn acquire_now(&mut self, tokens: u64) -> (r: bool)
        requires
            old(self).wf(),
            tokens * 1000 <= u64::MAX,
        ensures
            final(self).wf(),
            final(self).capacity_spec() == old(self).capacity_spec(),
            final(self).rate_spec() == old(self).rate_spec(),
            r == (old(self).tokens_spec() >= tokens * 1000),
            r ==> final(self).tokens_spec() == old(self).tokens_spec() - tokens * 1000,
            !r ==> final(self).tokens_spec() == old(self).tokens_spec(),
    {
        let tokens_fp = tokens * 1000;
        if self.tokens < tokens_fp {
            return false;
        }
        self.tokens = self.tokens - tokens_fp;
        true
    }

    /// Refills by the time elapsed since the last refill, then takes
    /// `tokens` whole tokens if the bucket holds that many.
    pub fn try_acquire(&mut self, tokens: u64) -> (r: bool)
        requires
            old(self).wf(),
            tokens * 1000 <= u64::MAX,
        ensures
            final(self).wf(),
            final(self).capacity_spec() == old(self).capacity_spec(),
            final(self).rate_spec() == old(self).rate_spec(),
            exists|e: u128| {
                &&& r == (#[trigger] refilled(old(self).tokens_spec(), e, old(self).rate_spec(), old(self).capacity_spec()) >= tokens * 1000)
                &&& r ==> final(self).tokens_spec() == refilled(old(self).tokens_spec(), e, old(self).rate_spec(), old(self).capacity_spec()) - tokens * 1000
                &&& !r ==> final(self).tokens_spec() == refilled(old(self).tokens_spec(), e, old(self).rate_spec(), old(self).capacity_spec())
            },
    {
        self.refill();
        self.acquire_now(tokens)
    }

    /// Whole tokens available after refilling.
    pub fn available_tokens(&mut self) -> (n: u64)
        requires
            old(self).wf(),
        ensures
            final(self).wf(),
            final(self).capacity_spec() == old(self).capacity_spec(),
            final(self).rate_spec() == old(self).rate_spec(),
            n == final(self).tokens_spec() / 1000,
            exists|e: u128| final(self).tokens_spec()
                == #[trigger] refilled(old(self).tokens_spec(), e, old(self).rate_spec(), old(self).capacity_spec()),
    {
        self.refill();
        self.tokens / 1000
    }
}

} // verus!
