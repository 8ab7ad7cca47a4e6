//! Error types of the sniffer and its retry policy.

use vstd::prelude::*;

use crate::text::{decimal, push_decimal, push_str};
use core::time::Duration;

verus! {

/// Main error type for sniffer operations.
#[derive(Debug, Clone)]
pub enum SnifferError {
    /// Configuration validation error
    ConfigValidation(String),
    /// Stream connection failed
    StreamConnection(String),
    /// Stream disconnected unexpectedly
    StreamDisconnected,
    /// Retry limit exceeded
    RetryLimitExceeded(u32),
    /// Channel send error
    ChannelSend(String),
    /// Shutdown requested
    ShutdownRequested,
    /// Invalid transaction data
    InvalidTransaction(String),
    /// gRPC error
    GrpcError(String),
    /// Timeout error
    Timeout(String),
}

/// The human-readable text of a sniffer error.
pub open spec fn sniffer_error_text(e: SnifferError) -> Seq<char> {
    match e {
        SnifferError::ConfigValidation(m) => "Configuration validation error: "@ + m@,
        SnifferError::StreamConnection(m) => "Stream connection error: "@ + m@,
        SnifferError::StreamDisconnected => "Stream disconnected"@,
        SnifferError::RetryLimitExceeded(n) => "Retry limit exceeded after "@ + decimal(n as nat) + " attempts"@,
        SnifferError::ChannelSend(m) => "Channel send error: "@ + m@,
        SnifferError::ShutdownRequested => "Shutdown requested"@,
        SnifferError::InvalidTransaction(m) => "Invalid transaction: "@ + m@,
        SnifferError::GrpcError(m) => "gRPC error: "@ + m@,
        SnifferError::Timeout(m) => "Timeout: "@ + m@,
    }
}

impl SnifferError {
    /// The human-readable text of this error.
    pub fn message(&self) -> (r: String)
        ensures
            r@ == sniffer_error_text(*self),
    {
        let mut s = String::new();
        match self {
            SnifferError::ConfigValidation(m) => {
                push_str(&mut s, "Configuration validation error: ");
                push_str(&mut s, m.as_str());
            },
            SnifferError::StreamConnection(m) => {
                push_str(&mut s, "Stream connection error: ");
                push_str(&mut s, m.as_str());
            },
            SnifferError::StreamDisconnected => {
                push_str(&mut s, "Stream disconnected");
            },
            SnifferError::RetryLimitExceeded(n) => {
                push_str(&mut s, "Retry limit exceeded after ");
                push_decimal(&mut s, *n as u128);
                push_str(&mut s, " attempts");
            },
            SnifferError::ChannelSend(m) => {
                push_str(&mut s, "Channel send error: ");
                push_str(&mut s, m.as_str());
            },
            SnifferError::ShutdownRequested => {
                push_str(&mut s, "Shutdown requested");
            },
            SnifferError::InvalidTransaction(m) => {
                push_str(&mut s, "Invalid transaction: ");
                push_str(&mut s, m.as_str());
            },
            SnifferError::GrpcError(m) => {
                push_str(&mut s, "gRPC error: ");
                push_str(&mut s, m.as_str());
            },
            SnifferError::Timeout(m) => {
                push_str(&mut s, "Timeout: ");
                push_str(&mut s, m.as_str());
            },
        }
        assert(s@ =~= sniffer_error_text(*self));
        s
    }
}

/// Error type for mint extraction.
#[derive(Debug, Clone, Copy, PartialEq, Eq, Structural)]
pub enum MintExtractError {
    /// Transaction too small to contain mint data
    TooSmall,
    /// Invalid mint pubkey (all zeros / default)
    InvalidMint,
    /// Extraction offset out of bounds
    OutOfBounds,
    /// Deserialization failed
    DeserializationFailed,
}

pub open spec fn mint_error_text(e: MintExtractError) -> Seq<char> {
    match e {
        MintExtractError::TooSmall => "Transaction too small"@,
        MintExtractError::InvalidMint => "Invalid mint pubkey"@,
        MintExtractError::OutOfBounds => "Extraction offset out of bounds"@,
        MintExtractError::DeserializationFailed => "Deserialization failed"@,
    }
}

impl MintExtractError {
    /// The human-readable text of this error.
    pub fn message(&self) -> (r: &'static str)
        ensures
            r@ == mint_error_text(*self),
    {
        match self {
            MintExtractError::TooSmall => "Transaction too small",
            MintExtractError::InvalidMint => "Invalid mint pubkey",
            MintExtractError::OutOfBounds => "Extraction offset out of bounds",
            MintExtractError::DeserializationFailed => "Deserialization failed",
        }
    }
}

/// Error type for account extraction.
#[derive(Debug, Clone, Copy, PartialEq, Eq, Structural)]
pub enum AccountExtractError {
    /// Transaction too small to contain account data
    TooSmall,
    /// Invalid account pubkey (all zeros / default)
    InvalidAccount,
    /// Extraction offset out of bounds
    OutOfBounds,
    /// Deserialization failed
    DeserializationFailed,
}

pub open spec fn account_error_text(e: AccountExtractError) -> Seq<char> {
    match e {
        AccountExtractError::TooSmall => "Transaction too small"@,
        AccountExtractError::InvalidAccount => "Invalid account pubkey"@,
        AccountExtractError::OutOfBounds => "Extraction offset out of bounds"@,
        AccountExtractError::DeserializationFailed => "Deserialization failed"@,
    }
}

impl AccountExtractError {
    /// The human-readable text of this error.
    pub fn message(&self) -> (r: &'static str)
        ensures
            r@ == account_error_text(*self),
    {
        match self {
            AccountExtractError::TooSmall => "Transaction too small",
            AccountExtractError::InvalidAccount => "Invalid account pubkey",
            AccountExtractError::OutOfBounds => "Extraction offset out of bounds",
            AccountExtractError::DeserializationFailed => "Deserialization failed",
        }
    }
}

/// `2^k`.
pub open spec fn pow2(k: nat) -> nat
    decreases k,
{
    if k == 0 { 1 } else { 2 * pow2((k - 1) as nat) }
}

/// The backoff before jitter for the given attempt: the initial backoff
/// doubled once per attempt, capped at the maximum.
pub open spec fn base_backoff(initial_ms: u64, max_ms: u64, attempt: u32) -> int {
    let raw = initial_ms * pow2(attempt as nat);
    if raw <= max_ms { raw } else { max_ms as int }
}

/// The jittered backoff: a random offset in `[-j, j)` with `j` a fifth of
/// the backoff, taken from the random draw `rnd`, and floored at zero.
pub open spec fn jittered_ms(backoff_ms: int, rnd: i64) -> int {
    let j = backoff_ms / 5;
    let offset = (rnd as int) % (2 * j) - j;
    if backoff_ms + offset >= 0 { backoff_ms + offset } else { 0 }
}

/// The duration of `ms` milliseconds (`Duration::from_millis`).
pub uninterp spec fn millis_duration(ms: u64) -> Duration;

/// `Duration::from_millis`.
#[verifier::external_body]
pub fn duration_from_millis(ms: u64) -> (d: Duration)
    ensures
        d == millis_duration(ms),
{
    Duration::from_millis(ms)
}

/// `rand::random::<i64>()`: a uniformly drawn 64-bit integer.
#[verifier::external_body]
fn random_i64() -> i64 {
    rand::random::<i64>()
}

/// Exponential backoff with jitter for retry logic.
#[derive(Debug, Clone)]
pub struct ExponentialBackoff {
    current_attempt: u32,
    initial_backoff_ms: u64,
    max_backoff_ms: u64,
}

impl ExponentialBackoff {
    pub closed spec fn attempt_spec(&self) -> u32 {
        self.current_attempt
    }

    pub closed spec fn initial_spec(&self) -> u64 {
        self.initial_backoff_ms
    }

    pub closed spec fn max_spec(&self) -> u64 {
        self.max_backoff_ms
    }

    /// The next call can compute its backoff without overflow, and the
    /// backoff is large enough to carry jitter.
    pub open spec fn can_advance(&self) -> bool {
        &&& self.attempt_spec() < 64
        &&& self.initial_spec() * pow2(self.attempt_spec() as nat) <= u64::MAX
        &&& base_backoff(self.initial_spec(), self.max_spec(), self.attempt_spec()) >= 5
        &&& base_backoff(self.initial_spec(), self.max_spec(), self.attempt_spec()) <= i64::MAX
    }

    /// Create a new exponential backoff strategy.
    pub fn new(initial_backoff_ms: u64, max_backoff_ms: u64) -> (b: Self)
        ensures
            b.attempt_spec() == 0,
            b.initial_spec() == initial_backoff_ms,
            b.max_spec() == max_backoff_ms,
    {
        Self { current_attempt: 0, initial_backoff_ms, max_backoff_ms }
    }

    /// The jittered delay, in milliseconds, for a backoff of `backoff_ms`
    /// and the random draw `rnd`.
    pub fn jitter(backoff_ms: u64, rnd: i64) -> (r: u64)
        requires
            5 <= backoff_ms <= i64::MAX,
        ensures
            r == jittered_ms(backoff_ms as int, rnd),
    {
        let j: i64 = (backoff_ms / 5) as i64;
        assert(j as int == backoff_ms / 5);
        let m: i64 = 2 * j;
        let pos: i64 = match rnd.checked_rem_euclid(m) {
            Some(v) => v,
            None => 0,
        };
        assert(pos as int == (rnd as int) % (2 * j));
        let offset: i64 = pos - j;
        let total: i128 = backoff_ms as i128 + offset as i128;
        if total >= 0 { total as u64 } else { 0 }
    }

    /// The delay before the next retry; advances the attempt counter.
    pub fn next_backoff(&mut self) -> (d: Duration)
        requires
            old(self).can_advance(),
        ensures
            final(self).attempt_spec() == old(self).attempt_spec() + 1,
            final(self).initial_spec() == old(self).initial_spec(),
            final(self).max_spec() == old(self).max_spec(),
            exists|rnd: i64| d == millis_duration(jittered_ms(
                base_backoff(old(self).initial_spec(), old(self).max_spec(), old(self).attempt_spec()),
                rnd,
            ) as u64),
    {
        let ghost pa = pow2(self.current_attempt as nat);
        proof {
            if self.initial_backoff_ms == 0 {
                let q = pow2(self.current_attempt as nat);
                assert(0 * q == 0) by (nonlinear_arith);
            }
        }
        assert(self.initial_backoff_ms >= 1);
        assert(pa <= u64::MAX) by (nonlinear_arith)
            requires
                self.initial_backoff_ms >= 1,
                self.initial_backoff_ms * pa <= u64::MAX,
        ;
        let mut p: u64 = 1;
        let mut k: u32 = 0;
        while k < self.current_attempt
            invariant
                k <= self.current_attempt,
                self.current_attempt < 64,
                p as nat == pow2(k as nat),
                pa == pow2(self.current_attempt as nat),
                pa <= u64::MAX,
            decreases self.current_attempt - k,
        {
            proof { lemma_pow2_mono(k as nat + 1, self.current_attempt as nat); }
            p = p * 2;
            k = k + 1;
        }
        let raw: u64 = self.initial_backoff_ms * p;
        let backoff_ms: u64 = if raw <= self.max_backoff_ms { raw } else { self.max_backoff_ms };
        self.current_attempt = self.current_attempt + 1;
        assert(backoff_ms == base_backoff(old(self).initial_spec(), old(self).max_spec(), old(self).attempt_spec()));
        let rnd = random_i64();
        let ms = Self::jitter(backoff_ms, rnd);
        let d = duration_from_millis(ms);
        assert(d == millis_duration(jittered_ms(backoff_ms as int, rnd) as u64));
        d
    }

    /// Reset the backoff to its initial state.
    pub fn reset(&mut self)
        ensures
            final(self).attempt_spec() == 0,
            final(self).initial_spec() == old(self).initial_spec(),
            final(self).max_spec() == old(self).max_spec(),
    {
        self.current_attempt = 0;
    }

    /// Whether the next backoff can be computed: no overflow of the doubled
    /// backoff, and a backoff of 5 to `i64::MAX` milliseconds.
    pub fn next_is_computable(&self) -> (r: bool)
        ensures
            r == self.can_advance(),
    {
        if self.current_attempt >= 64 {
            return false;
        }
        let mut p: u64 = 1;
        let mut k: u32 = 0;
        let ghost pa = pow2(self.current_attempt as nat);
        while k < self.current_attempt
            invariant
                k <= self.current_attempt,
                self.current_attempt < 64,
                p as nat == pow2(k as nat),
                pa == pow2(self.current_attempt as nat),
            decreases self.current_attempt - k,
        {
            if p > u64::MAX / 2 {
                proof {
                    lemma_pow2_mono(k as nat + 1, self.current_attempt as nat);
                    assert(pa > u64::MAX);
                    if self.initial_backoff_ms >= 1 {
                        assert(self.initial_backoff_ms * pa >= pa) by (nonlinear_arith)
                            requires self.initial_backoff_ms >= 1, pa >= 0;
                    } else {
                        assert(self.initial_backoff_ms * pa == 0) by (nonlinear_arith)
                            requires self.initial_backoff_ms == 0;
                    }
                }
                return false;
            }
            p = p * 2;
            k = k + 1;
        }
        let raw = match self.initial_backoff_ms.checked_mul(p) {
            Some(v) => v,
            None => return false,
        };
        let b: u64 = if raw <= self.max_backoff_ms { raw } else { self.max_backoff_ms };
        b >= 5 && b <= 0x7fff_ffff_ffff_ffffu64
    }

    /// The current attempt number.
    pub fn attempt(&self) -> (r: u32)
        ensures
            r == self.attempt_spec(),
    {
        self.current_attempt
    }
}

/// Jitter moves a backoff of at least 5 ms by less than a fifth of it: the
/// delay lies in `[b - b/5, b + b/5)`.
pub proof fn lemma_jitter_within_a_fifth(backoff_ms: int, rnd: i64)
    requires
        backoff_ms >= 5,
    ensures
        backoff_ms - backoff_ms / 5 <= jittered_ms(backoff_ms, rnd),
        jittered_ms(backoff_ms, rnd) < backoff_ms + backoff_ms / 5,
{
    let j = backoff_ms / 5;
    assert(j >= 1);
    let m = (rnd as int) % (2 * j);
    assert(0 <= m < 2 * j) by (nonlinear_arith)
        requires
            j >= 1,
            m == (rnd as int) % (2 * j),
    ;
}

/// The backoff before jitter never exceeds the maximum, so no delay exceeds
/// the maximum by a fifth of it or more.
pub proof fn lemma_backoff_bounded_by_max(initial_ms: u64, max_ms: u64, attempt: u32, rnd: i64)
    requires
        base_backoff(initial_ms, max_ms, attempt) >= 5,
    ensures
        base_backoff(initial_ms, max_ms, attempt) <= max_ms,
        jittered_ms(base_backoff(initial_ms, max_ms, attempt), rnd) < max_ms + max_ms / 5,
{
    let b = base_backoff(initial_ms, max_ms, attempt);
    lemma_jitter_within_a_fifth(b, rnd);
    assert(b / 5 <= max_ms / 5) by (nonlinear_arith)
        requires
            0 <= b <= max_ms,
    ;
}

proof fn lemma_pow2_mono(a: nat, b: nat)
    requires
        a <= b,
    ensures
        pow2(a) <= pow2(b),
        pow2(a) >= 1,
    decreases b,
{
    if a < b {
        lemma_pow2_mono(a, (b - 1) as nat);
    } else if b > 0 {
        lemma_pow2_mono(0, (b - 1) as nat);
    }
}

} // verus!
