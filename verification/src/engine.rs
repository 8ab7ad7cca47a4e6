//! The buy engine's main loop, as decisions: each function decides one step
//! of an iteration from what the caller observed, and the caller performs
//! the step (sleeping, receiving, sending).

use vstd::prelude::*;

use crate::buy_engine::{classify_lowercase, lowercase, spec_is_retryable, RpcErrorClass};
use crate::pubkey::Pubkey;
use crate::strings::str_eq;
use std::collections::VecDeque;

verus! {

// ---------------------------------------------------------------------------
// GUI control state
// ---------------------------------------------------------------------------

/// What the loop does for a control code: 0 stops, 2 pauses, 1 (and any
/// unknown code) runs.
#[derive(Debug, Clone, Copy, PartialEq, Eq, Structural)]
pub enum ControlDecision {
    /// Leave the loop
    Exit,
    /// Sleep 100 ms and look again
    Pause,
    /// Go on with the iteration
    Proceed,
}

/// Milliseconds the loop sleeps while paused.
pub const PAUSE_SLEEP_MS: u64 = 100;

/// Milliseconds the loop waits while the circuit breaker is open.
pub const BREAKER_WAIT_MS: u64 = 5000;

/// Milliseconds the loop waits when no new position may be opened.
pub const PORTFOLIO_WAIT_MS: u64 = 100;

/// Milliseconds the loop waits for a candidate while sniffing.
pub const SNIFF_RECV_TIMEOUT_MS: u64 = 1000;

/// Milliseconds the loop waits for a candidate while holding a position.
pub const PASSIVE_RECV_TIMEOUT_MS: u64 = 500;

pub open spec fn spec_control_decision(code: u8) -> ControlDecision {
    if code == 0 {
        ControlDecision::Exit
    } else if code == 2 {
        ControlDecision::Pause
    } else {
        ControlDecision::Proceed
    }
}

/// The loop's decision for a control code.
pub fn control_decision(code: u8) -> (d: ControlDecision)
    ensures
        d == spec_control_decision(code),
{
    match code {
        0 => ControlDecision::Exit,
        2 => ControlDecision::Pause,
        _ => ControlDecision::Proceed,
    }
}

/// The GUI control state: 0 = stopped, 1 = running, 2 = paused.
pub struct BotControl {
    state: u8,
}

impl BotControl {
    pub closed spec fn state_spec(&self) -> u8 {
        self.state
    }

    /// A running bot.
    pub fn new() -> (c: BotControl)
        ensures
            c.state_spec() == 1,
    {
        BotControl { state: 1 }
    }

    /// The current control code.
    pub fn get_control_state(&self) -> (s: u8)
        ensures
            s == self.state_spec(),
    {
        self.state
    }

    /// Sets the control code; codes above 2 are ignored. Returns whether
    /// the code was taken.
    pub fn set_control_state(&mut self, state: u8) -> (taken: bool)
        ensures
            taken == (state <= 2),
            taken ==> final(self).state_spec() == state,
            !taken ==> final(self).state_spec() == old(self).state_spec(),
    {
        if state > 2 {
            return false;
        }
        self.state = state;
        true
    }

    /// A shutdown sets the code to stopped.
    pub fn shutdown(&mut self)
        ensures
            final(self).state_spec() == 0,
    {
        self.state = 0;
    }
}

/// The name of a control code, as logged.
pub fn control_state_name(state: u8) -> (r: &'static str)
    ensures
        state == 0 ==> r@ == "Stopped"@,
        state == 1 ==> r@ == "Running"@,
        state == 2 ==> r@ == "Paused"@,
        state > 2 ==> r@ == "Unknown"@,
{
    match state {
        0 => "Stopped",
        1 => "Running",
        2 => "Paused",
        _ => "Unknown",
    }
}

// ---------------------------------------------------------------------------
// Sniffing gate and candidate checks
// ---------------------------------------------------------------------------

/// What the loop does once the breaker lets it through.
#[derive(Debug, Clone, Copy, PartialEq, Eq, Structural)]
pub enum SniffGate {
    /// Holding a position: wait for a candidate only to ignore it
    Passive,
    /// No new position may be opened: wait and look again
    PortfolioFull,
    /// Look for a candidate to buy
    Sniff,
}

pub open spec fn spec_sniff_gate(sniffing: bool, can_buy: bool) -> SniffGate {
    if !sniffing {
        SniffGate::Passive
    } else if !can_buy {
        SniffGate::PortfolioFull
    } else {
        SniffGate::Sniff
    }
}

/// Whether to look for a candidate: not while holding a token, not while
/// no position may be opened; otherwise sniff.
pub fn sniff_gate(sniffing: bool, can_buy: bool) -> (g: SniffGate)
    ensures
        g == spec_sniff_gate(sniffing, can_buy),
{
    if !sniffing {
        SniffGate::Passive
    } else if !can_buy {
        SniffGate::PortfolioFull
    } else {
        SniffGate::Sniff
    }
}

/// What one iteration of the engine loop does before it waits for a
/// candidate.
#[derive(Debug, Clone, Copy, PartialEq, Eq, Structural)]
pub enum IterationAction {
    /// Leave the loop (control code 0)
    Exit,
    /// Sleep this many milliseconds and start over
    Sleep(u64),
    /// Wait this many milliseconds for a candidate to buy
    AwaitCandidate(u64),
    /// Wait this many milliseconds for a candidate only to ignore it
    AwaitPassive(u64),
}

/// The checks of one iteration, in the loop's order: the control code
/// (stop, or pause for 100 ms); the circuit breaker (wait 5 s while it
/// refuses); while holding a position, a passive wait of 500 ms; while no
/// position may be opened, a wait of 100 ms; a pending backoff; otherwise a
/// wait of one second for a candidate to buy. `breaker_allows` is the
/// breaker's answer and `backoff` the backoff's, asked in that order and
/// only when the checks before them let the iteration through.
pub open spec fn spec_iteration(
    control: u8,
    breaker_allows: bool,
    sniffing: bool,
    can_buy: bool,
    backoff: Option<u64>,
) -> IterationAction {
    match spec_control_decision(control) {
        ControlDecision::Exit => IterationAction::Exit,
        ControlDecision::Pause => IterationAction::Sleep(PAUSE_SLEEP_MS),
        ControlDecision::Proceed => if !breaker_allows {
            IterationAction::Sleep(BREAKER_WAIT_MS)
        } else {
            match spec_sniff_gate(sniffing, can_buy) {
                SniffGate::Passive => IterationAction::AwaitPassive(PASSIVE_RECV_TIMEOUT_MS),
                SniffGate::PortfolioFull => IterationAction::Sleep(PORTFOLIO_WAIT_MS),
                SniffGate::Sniff => match backoff {
                    Some(ms) => IterationAction::Sleep(ms),
                    None => IterationAction::AwaitCandidate(SNIFF_RECV_TIMEOUT_MS),
                },
            }
        },
    }
}

/// One iteration of the engine loop, from the answers of its checks.
pub fn next_iteration(
    control: u8,
    breaker_allows: bool,
    sniffing: bool,
    can_buy: bool,
    backoff: Option<u64>,
) -> (a: IterationAction)
    ensures
        a == spec_iteration(control, breaker_allows, sniffing, can_buy, backoff),
{
    match control_decision(control) {
        ControlDecision::Exit => IterationAction::Exit,
        ControlDecision::Pause => IterationAction::Sleep(PAUSE_SLEEP_MS),
        ControlDecision::Proceed => {
            if !breaker_allows {
                return IterationAction::Sleep(BREAKER_WAIT_MS);
            }
            match sniff_gate(sniffing, can_buy) {
                SniffGate::Passive => IterationAction::AwaitPassive(PASSIVE_RECV_TIMEOUT_MS),
                SniffGate::PortfolioFull => IterationAction::Sleep(PORTFOLIO_WAIT_MS),
                SniffGate::Sniff => match backoff {
                    Some(ms) => IterationAction::Sleep(ms),
                    None => IterationAction::AwaitCandidate(SNIFF_RECV_TIMEOUT_MS),
                },
            }
        },
    }
}

/// Programs whose candidates are worth buying.
pub open spec fn spec_interesting_program(p: Seq<char>) -> bool {
    p == "pump.fun"@ || p == "pumpfun"@ || p == "letsbonk.fun"@ || p == "letsbonk"@
}

/// Whether a candidate's program is one the engine trades.
pub fn is_candidate_interesting(program: &str) -> (r: bool)
    ensures
        r == spec_interesting_program(program@),
{
    str_eq(program, "pump.fun") || str_eq(program, "pumpfun") || str_eq(program, "letsbonk.fun")
        || str_eq(program, "letsbonk")
}

/// The outcome of the checks a received candidate goes through.
#[derive(Debug, Clone, Copy, PartialEq, Eq, Structural)]
pub enum CandidateVerdict {
    /// The mint is over its circuit-breaker rate
    MintRateLimited,
    /// The program is over its circuit-breaker rate
    ProgramRateLimited,
    /// The security validation refused the candidate
    SecurityRejected,
    /// The mint is over the validator's rate
    RateLimited,
    /// The program is not one the engine trades
    Filtered,
    /// Try to buy it
    Attempt,
}

/// The results of the candidate checks, in the order they are made.
#[derive(Debug, Clone, Copy)]
pub struct CandidateChecks {
    pub mint_rate_ok: bool,
    pub program_rate_ok: bool,
    pub security_ok: bool,
    pub validator_rate_ok: bool,
    pub interesting: bool,
}

pub open spec fn spec_candidate_verdict(c: CandidateChecks) -> CandidateVerdict {
    if !c.mint_rate_ok {
        CandidateVerdict::MintRateLimited
    } else if !c.program_rate_ok {
        CandidateVerdict::ProgramRateLimited
    } else if !c.security_ok {
        CandidateVerdict::SecurityRejected
    } else if !c.validator_rate_ok {
        CandidateVerdict::RateLimited
    } else if !c.interesting {
        CandidateVerdict::Filtered
    } else {
        CandidateVerdict::Attempt
    }
}

/// The first failing check decides; a candidate that passes them all is
/// bought.
pub fn candidate_verdict(c: CandidateChecks) -> (v: CandidateVerdict)
    ensures
        v == spec_candidate_verdict(c),
{
    if !c.mint_rate_ok {
        CandidateVerdict::MintRateLimited
    } else if !c.program_rate_ok {
        CandidateVerdict::ProgramRateLimited
    } else if !c.security_ok {
        CandidateVerdict::SecurityRejected
    } else if !c.validator_rate_ok {
        CandidateVerdict::RateLimited
    } else if !c.interesting {
        CandidateVerdict::Filtered
    } else {
        CandidateVerdict::Attempt
    }
}

/// A candidate is bought exactly when it passes every check: both circuit
/// breaker rates, the security validation, the validator's rate and the
/// program filter.
pub proof fn lemma_attempt_only_when_every_check_passes(c: CandidateChecks)
    ensures
        (spec_candidate_verdict(c) == CandidateVerdict::Attempt) <==> (c.mint_rate_ok && c.program_rate_ok
            && c.security_ok && c.validator_rate_ok && c.interesting),
{
}

/// A refusal names a check that failed, and every check made before it
/// passed: the checks are made in the order mint rate, program rate,
/// security, validator rate, program filter, and the first failure stops
/// the candidate.
pub proof fn lemma_refusal_names_first_failed_check(c: CandidateChecks)
    ensures
        spec_candidate_verdict(c) == CandidateVerdict::MintRateLimited <==> !c.mint_rate_ok,
        spec_candidate_verdict(c) == CandidateVerdict::ProgramRateLimited <==> (c.mint_rate_ok && !c.program_rate_ok),
        spec_candidate_verdict(c) == CandidateVerdict::SecurityRejected <==> (c.mint_rate_ok && c.program_rate_ok
            && !c.security_ok),
        spec_candidate_verdict(c) == CandidateVerdict::RateLimited <==> (c.mint_rate_ok && c.program_rate_ok
            && c.security_ok && !c.validator_rate_ok),
        spec_candidate_verdict(c) == CandidateVerdict::Filtered <==> (c.mint_rate_ok && c.program_rate_ok
            && c.security_ok && c.validator_rate_ok && !c.interesting),
{
}

/// A candidate that fails the security validation is never bought, whatever
/// the other checks say.
pub proof fn lemma_insecure_candidate_never_bought(c: CandidateChecks)
    requires
        !c.security_ok,
    ensures
        spec_candidate_verdict(c) != CandidateVerdict::Attempt,
        c.mint_rate_ok && c.program_rate_ok ==> spec_candidate_verdict(c) == CandidateVerdict::SecurityRejected,
{
}

/// The programs the engine trades.
pub open spec fn traded_programs() -> Set<Seq<char>> {
    set!["pump.fun"@, "pumpfun"@, "letsbonk.fun"@, "letsbonk"@]
}

/// The program filter lets through exactly the traded programs, with or
/// without the `.fun` suffix of pump.fun and letsbonk.fun.
pub proof fn lemma_filter_accepts_exactly_traded_programs(p: Seq<char>)
    ensures
        spec_interesting_program(p) <==> traded_programs().contains(p),
{
    reveal_strlit("pump.fun");
    reveal_strlit("pumpfun");
    reveal_strlit("letsbonk.fun");
    reveal_strlit("letsbonk");
}

/// The programs the multi-program sniffer watches, pump.fun and
/// letsbonk.fun, both pass the program filter.
pub proof fn lemma_sniffed_programs_pass_filter()
    ensures
        spec_interesting_program("pump.fun"@),
        spec_interesting_program("letsbonk.fun"@),
        spec_interesting_program("pumpfun"@),
        spec_interesting_program("letsbonk"@),
{
}

pub open spec fn verdict_counter_name(v: CandidateVerdict) -> Seq<char> {
    match v {
        CandidateVerdict::MintRateLimited => "buy_attempts_mint_rate_limited"@,
        CandidateVerdict::ProgramRateLimited => "buy_attempts_program_rate_limited"@,
        CandidateVerdict::SecurityRejected => "buy_attempts_security_rejected"@,
        CandidateVerdict::RateLimited => "buy_attempts_rate_limited"@,
        CandidateVerdict::Filtered => "buy_attempts_filtered"@,
        CandidateVerdict::Attempt => "buy_attempts_total"@,
    }
}

/// The metrics counter a verdict increments.
pub fn verdict_counter(v: CandidateVerdict) -> (r: &'static str)
    ensures
        r@ == verdict_counter_name(v),
{
    match v {
        CandidateVerdict::MintRateLimited => "buy_attempts_mint_rate_limited",
        CandidateVerdict::ProgramRateLimited => "buy_attempts_program_rate_limited",
        CandidateVerdict::SecurityRejected => "buy_attempts_security_rejected",
        CandidateVerdict::RateLimited => "buy_attempts_rate_limited",
        CandidateVerdict::Filtered => "buy_attempts_filtered",
        CandidateVerdict::Attempt => "buy_attempts_total",
    }
}

// ---------------------------------------------------------------------------
// Retry policy for sends
// ---------------------------------------------------------------------------

/// Exponential backoff for send retries. The jitter of up to a tenth of
/// the delay is added by the caller.
#[derive(Debug, Clone, Copy)]
pub struct ExponentialBackoff {
    pub base_delay_ms: u64,
    pub max_delay_ms: u64,
    pub max_retries: u32,
}

/// `2^k`.
pub open spec fn pow2(k: nat) -> nat
    decreases k,
{
    if k == 0 { 1 } else { 2 * pow2((k - 1) as nat) }
}

/// The delay before jitter for a retry attempt: the maximum once the
/// retries are used up, otherwise the base delay doubled per attempt and
/// capped at the maximum.
pub open spec fn spec_clamped_delay(b: ExponentialBackoff, attempt: u32) -> int {
    if attempt >= b.max_retries {
        b.max_delay_ms as int
    } else {
        let raw = b.base_delay_ms * pow2(attempt as nat);
        if raw <= b.max_delay_ms { raw } else { b.max_delay_ms as int }
    }
}

pub(crate) proof fn lemma_pow2_bound(a: nat, b: nat)
    requires
        a <= b,
    ensures
        1 <= pow2(a) <= pow2(b),
    decreases b,
{
    if a < b {
        lemma_pow2_bound(a, (b - 1) as nat);
    } else if b > 0 {
        lemma_pow2_bound(0, (b - 1) as nat);
    }
}

/// The delay before jitter never exceeds the maximum, and it never shrinks
/// from one attempt to a later one.
pub proof fn lemma_clamped_delay_bounded_and_monotone(b: ExponentialBackoff, a1: u32, a2: u32)
    requires
        a1 <= a2,
    ensures
        spec_clamped_delay(b, a1) <= b.max_delay_ms,
        spec_clamped_delay(b, a1) <= spec_clamped_delay(b, a2),
{
    if a2 < b.max_retries {
        lemma_pow2_bound(a1 as nat, a2 as nat);
        let p1 = pow2(a1 as nat);
        let p2 = pow2(a2 as nat);
        assert(b.base_delay_ms * p1 <= b.base_delay_ms * p2) by (nonlinear_arith)
            requires
                p1 <= p2,
        ;
    }
}

impl ExponentialBackoff {
    pub fn new(base_delay_ms: u64, max_delay_ms: u64, max_retries: u32) -> (b: Self)
        ensures
            b.base_delay_ms == base_delay_ms,
            b.max_delay_ms == max_delay_ms,
            b.max_retries == max_retries,
    {
        ExponentialBackoff { base_delay_ms, max_delay_ms, max_retries }
    }

    /// The delay before jitter for `attempt`.
    pub fn clamped_delay_ms(&self, attempt: u32) -> (d: u64)
        requires
            attempt >= self.max_retries || (attempt < 64 && self.base_delay_ms * pow2(attempt as nat) <= u64::MAX),
        ensures
            d == spec_clamped_delay(*self, attempt),
    {
        if attempt >= self.max_retries {
            return self.max_delay_ms;
        }
        let ghost pa = pow2(attempt as nat);
        proof { lemma_pow2_bound(0, attempt as nat); }
        let mut p: u64 = 1;
        let mut k: u32 = 0;
        if self.base_delay_ms == 0 {
            return 0;
        }
        assert(pa <= u64::MAX) by (nonlinear_arith)
            requires
                self.base_delay_ms >= 1,
                self.base_delay_ms * pa <= u64::MAX,
                pa >= 1,
        ;
        while k < attempt
            invariant
                k <= attempt,
                attempt < 64,
                p as nat == pow2(k as nat),
                pa == pow2(attempt as nat),
                pa <= u64::MAX,
            decreases attempt - k,
        {
            proof { lemma_pow2_bound(k as nat + 1, attempt as nat); }
            p = p * 2;
            k = k + 1;
        }
        let raw = self.base_delay_ms * p;
        if raw <= self.max_delay_ms { raw } else { self.max_delay_ms }
    }

    /// Whether a failed send is retried: retries remain and the error's
    /// class is retryable.
    pub fn should_retry(&self, attempt: u32, error_message: &str) -> (r: bool)
        ensures
            r == (attempt < self.max_retries && spec_is_retryable(classify_lowercase(lowercase(error_message@)))),
    {
        attempt < self.max_retries && RpcErrorClass::classify(error_message).is_retryable()
    }
}

impl Default for ExponentialBackoff {
    fn default() -> (b: Self)
        ensures
            b.base_delay_ms == 100,
            b.max_delay_ms == 10_000,
            b.max_retries == 5,
    {
        ExponentialBackoff::new(100, 10_000, 5)
    }
}

/// What the send loop does after a failed attempt.
#[derive(Debug, Clone, Copy, PartialEq, Eq, Structural)]
pub enum SendDecision {
    /// Give up and return the error
    GiveUp,
    /// Sleep for the backoff delay of this attempt, then retry
    BackOff,
    /// Give up: the blockhash expired and the transaction must be re-signed
    BlockhashExpired,
    /// Switch to the endpoint with this index, sleep 50 ms, then retry
    Rotate(u64),
    /// Sleep 100 ms, then retry
    RetryLater,
}

/// The send loop's decision after attempt `attempt` failed with an error of
/// class `class`: no retry when retries are used up or the class is not
/// retryable; otherwise back off on rate limits, give up on an expired
/// blockhash, move to the next endpoint (cyclically, when any are
/// configured) on network errors, and retry after a pause on the rest.
pub open spec fn spec_send_decision(
    retries_left: bool,
    class: RpcErrorClass,
    endpoint_idx: u64,
    endpoints: nat,
) -> SendDecision {
    if !(retries_left && spec_is_retryable(class)) {
        SendDecision::GiveUp
    } else if class == RpcErrorClass::RateLimit {
        SendDecision::BackOff
    } else if class == RpcErrorClass::BadBlockhash {
        SendDecision::BlockhashExpired
    } else if class == RpcErrorClass::NetworkError {
        if endpoints > 0 {
            SendDecision::Rotate(((endpoint_idx + 1) % (endpoints as int)) as u64)
        } else {
            SendDecision::Rotate(endpoint_idx)
        }
    } else {
        SendDecision::RetryLater
    }
}

/// The send loop's decision after a failed attempt.
pub fn send_decision(
    backoff: &ExponentialBackoff,
    attempt: u32,
    class: RpcErrorClass,
    endpoint_idx: u64,
    endpoints: usize,
) -> (d: SendDecision)
    requires
        endpoint_idx < u64::MAX,
    ensures
        d == spec_send_decision(attempt < backoff.max_retries, class, endpoint_idx, endpoints as nat),
{
    if !(attempt < backoff.max_retries && class.is_retryable()) {
        return SendDecision::GiveUp;
    }
    match class {
        RpcErrorClass::RateLimit => SendDecision::BackOff,
        RpcErrorClass::BadBlockhash => SendDecision::BlockhashExpired,
        RpcErrorClass::NetworkError => {
            if endpoints > 0 {
                SendDecision::Rotate((endpoint_idx + 1) % (endpoints as u64))
            } else {
                SendDecision::Rotate(endpoint_idx)
            }
        },
        _ => SendDecision::RetryLater,
    }
}

/// Oldest blockhash age, in milliseconds, at which a queued transaction is
/// still sent.
pub const MAX_BLOCKHASH_AGE_MS: u128 = 2000;

/// Whether a queued transaction's blockhash is too old to send; an unknown
/// age counts as fresh.
pub fn blockhash_too_old(age_ms: Option<u128>) -> (r: bool)
    ensures
        r == match age_ms {
            Some(a) => a > 2000,
            None => false,
        },
{
    match age_ms {
        Some(a) => a > MAX_BLOCKHASH_AGE_MS,
        None => false,
    }
}

// ---------------------------------------------------------------------------
// Bounded histories and queues
// ---------------------------------------------------------------------------

/// Latency samples kept per metric.
pub const LATENCY_HISTORY_CAP: usize = 1000;

/// The history after recording `x` in a history bounded by `cap`: the
/// oldest sample leaves when the history is full.
pub open spec fn bounded_push<T>(h: Seq<T>, x: T, cap: nat) -> Seq<T> {
    if h.len() >= cap { h.drop_first().push(x) } else { h.push(x) }
}

/// A bounded history of samples, oldest first.
pub struct SampleHistory<T> {
    samples: VecDeque<T>,
    cap: usize,
}

impl<T: Copy> SampleHistory<T> {
    pub closed spec fn view_seq(&self) -> Seq<T> {
        self.samples@
    }

    pub closed spec fn cap_spec(&self) -> nat {
        self.cap as nat
    }

    /// Never more samples than the bound, and the bound is positive.
    pub closed spec fn wf(&self) -> bool {
        0 < self.cap && self.samples@.len() <= self.cap
    }

    /// A well-formed history holds at most its bound.
    pub proof fn lemma_within_bound(&self)
        requires
            self.wf(),
        ensures
            self.view_seq().len() <= self.cap_spec(),
    {
    }

    /// An empty history bounded by `cap` samples.
    pub fn new(cap: usize) -> (h: Self)
        requires
            cap > 0,
        ensures
            h.wf(),
            h.view_seq() == Seq::<T>::empty(),
            h.cap_spec() == cap,
    {
        SampleHistory { samples: VecDeque::new(), cap }
    }

    /// Records a sample, dropping the oldest one when full.
    pub fn record(&mut self, x: T)
        requires
            old(self).wf(),
        ensures
            final(self).wf(),
            final(self).cap_spec() == old(self).cap_spec(),
            final(self).view_seq() == bounded_push(old(self).view_seq(), x, old(self).cap_spec()),
    {
        if self.samples.len() >= self.cap {
            let _ = self.samples.pop_front();
        }
        self.samples.push_back(x);
    }

    /// The number of samples held.
    pub fn len(&self) -> (n: usize)
        ensures
            n == self.view_seq().len(),
    {
        self.samples.len()
    }

    /// The samples, oldest first.
    pub fn to_vec(&self) -> (v: Vec<T>)
        ensures
            v@ == self.view_seq(),
    {
        let n = self.samples.len();
        let mut v: Vec<T> = Vec::new();
        let mut i: usize = 0;
        while i < n
            invariant
                i <= n,
                n == self.samples@.len(),
                v@ == self.samples@.subrange(0, i as int),
            decreases n - i,
        {
            v.push(self.samples[i]);
            i = i + 1;
            assert(v@ =~= self.samples@.subrange(0, i as int));
        }
        assert(v@ =~= self.samples@);
        v
    }
}

/// A bounded history keeps at most its bound, ends with the newest sample,
/// and keeps the newest samples it held before in order.
pub proof fn lemma_bounded_push<T>(h: Seq<T>, x: T, cap: nat)
    requires
        0 < cap,
        h.len() <= cap,
    ensures
        bounded_push(h, x, cap).len() <= cap,
        bounded_push(h, x, cap).last() == x,
        bounded_push(h, x, cap).drop_last() == (if h.len() >= cap { h.drop_first() } else { h }),
{
    let r = bounded_push(h, x, cap);
    if h.len() >= cap {
        assert(r.drop_last() =~= h.drop_first());
    } else {
        assert(r.drop_last() =~= h);
    }
}

// ---------------------------------------------------------------------------
// Trading mode
// ---------------------------------------------------------------------------

/// What the engine is doing.
#[derive(Debug, Clone, Copy, PartialEq, Eq)]
pub enum Mode {
    /// Looking for a token to buy
    Sniffing,
    /// Holding the token with this mint
    PassiveToken(Pubkey),
    /// Trading by hand
    QuantumManual,
    /// Simulated trading
    Simulation,
    /// Live trading
    Production,
}

/// Why a sell was refused.
#[derive(Debug, Clone, Copy, PartialEq, Eq, Structural)]
pub enum SellRefusal {
    /// A buy is still in flight
    BuyInProgress,
    /// The engine holds no token
    NotPassive,
    /// No position is open in the mint
    PositionNotFound,
}

/// The message of a refused sell of `mint`.
pub open spec fn sell_refusal_text(r: SellRefusal, mint: Pubkey) -> Seq<char> {
    match r {
        SellRefusal::BuyInProgress => "buy operation in progress"@,
        SellRefusal::NotPassive => "not in PassiveToken mode"@,
        SellRefusal::PositionNotFound => "Position not found for mint "@ + crate::encoding::base58_text(
            mint.bytes@,
        ),
    }
}

/// The message of a refused sell of `mint`.
pub fn sell_refusal_message(r: SellRefusal, mint: &Pubkey) -> (m: String)
    ensures
        m@ == sell_refusal_text(r, *mint),
{
    match r {
        SellRefusal::BuyInProgress => String::from_str("buy operation in progress"),
        SellRefusal::NotPassive => String::from_str("not in PassiveToken mode"),
        SellRefusal::PositionNotFound => {
            let mut m = String::from_str("Position not found for mint ");
            let key = crate::encoding::bs58_encode(mint.bytes.as_slice());
            crate::text::push_str(&mut m, key.as_str());
            m
        },
    }
}

/// The engine's mode, its open positions (by mint, each once) and whether
/// a buy is in flight.
pub struct TradingState {
    mode: Mode,
    positions: Vec<Pubkey>,
    pending_buy: bool,
}

/// The open positions after opening one in `mint`.
pub open spec fn with_position(ps: Seq<Seq<u8>>, mint: Seq<u8>) -> Seq<Seq<u8>> {
    if ps.contains(mint) { ps } else { ps.push(mint) }
}

/// Any key but `mint`.
pub open spec fn other_than(mint: Seq<u8>) -> spec_fn(Seq<u8>) -> bool {
    |k: Seq<u8>| k != mint
}

/// The open positions after closing the one in `mint`.
pub open spec fn without_position(ps: Seq<Seq<u8>>, mint: Seq<u8>) -> Seq<Seq<u8>> {
    ps.filter(other_than(mint))
}

impl TradingState {
    pub closed spec fn mode_spec(&self) -> Mode {
        self.mode
    }

    /// The mints of the open positions, oldest first.
    pub closed spec fn positions_spec(&self) -> Seq<Seq<u8>> {
        self.positions@.map_values(|k: Pubkey| k.bytes@)
    }

    pub closed spec fn pending_spec(&self) -> bool {
        self.pending_buy
    }

    /// No mint is held twice.
    pub closed spec fn wf(&self) -> bool {
        self.positions@.map_values(|k: Pubkey| k.bytes@).no_duplicates()
    }

    /// An engine in `mode` with no position and no buy in flight.
    pub fn new(mode: Mode) -> (s: Self)
        ensures
            s.wf(),
            s.mode_spec() == mode,
            s.positions_spec() == Seq::<Seq<u8>>::empty(),
            !s.pending_spec(),
    {
        let s = TradingState { mode, positions: Vec::new(), pending_buy: false };
        assert(s.positions_spec() =~= Seq::<Seq<u8>>::empty());
        s
    }

    /// The current mode.
    pub fn mode(&self) -> (m: Mode)
        ensures
            m == self.mode_spec(),
    {
        self.mode
    }

    /// Marks a buy as in flight or done.
    pub fn set_pending_buy(&mut self, pending: bool)
        requires
            old(self).wf(),
        ensures
            final(self).wf(),
            final(self).pending_spec() == pending,
            final(self).mode_spec() == old(self).mode_spec(),
            final(self).positions_spec() == old(self).positions_spec(),
    {
        self.pending_buy = pending;
    }

    /// Whether a buy is in flight.
    pub fn is_buy_pending(&self) -> (r: bool)
        ensures
            r == self.pending_spec(),
    {
        self.pending_buy
    }

    /// Marks a buy as in flight unless one already is; whether it was
    /// marked by this call.
    pub fn try_begin_buy(&mut self) -> (r: bool)
        requires
            old(self).wf(),
        ensures
            final(self).wf(),
            r == !old(self).pending_spec(),
            final(self).pending_spec(),
            final(self).mode_spec() == old(self).mode_spec(),
            final(self).positions_spec() == old(self).positions_spec(),
    {
        if self.pending_buy {
            false
        } else {
            self.pending_buy = true;
            true
        }
    }

    /// Whether a position is open in `mint`.
    pub fn has_position(&self, mint: &Pubkey) -> (r: bool)
        ensures
            r == self.positions_spec().contains(mint.bytes@),
    {
        let n = self.positions.len();
        let mut i: usize = 0;
        while i < n
            invariant
                i <= n,
                n == self.positions@.len(),
                forall|j: int| 0 <= j < i ==> self.positions@[j].bytes@ != mint.bytes@,
            decreases n - i,
        {
            if self.positions[i] == *mint {
                assert(self.positions_spec()[i as int] == mint.bytes@);
                return true;
            }
            i = i + 1;
        }
        proof {
            if self.positions_spec().contains(mint.bytes@) {
                let k = choose|k: int| 0 <= k < self.positions_spec().len() && self.positions_spec()[k] == mint.bytes@;
                assert(self.positions@[k].bytes@ == mint.bytes@);
            }
        }
        false
    }

    /// The number of open positions.
    pub fn position_count(&self) -> (n: usize)
        ensures
            n == self.positions_spec().len(),
    {
        self.positions.len()
    }

    /// A buy of `mint` landed: its position is open, and the first open
    /// position puts the engine in `PassiveToken` on that mint.
    pub fn on_buy_success(&mut self, mint: Pubkey)
        requires
            old(self).wf(),
        ensures
            final(self).wf(),
            final(self).positions_spec() == with_position(old(self).positions_spec(), mint.bytes@),
            final(self).mode_spec() == if final(self).positions_spec().len() == 1 {
                Mode::PassiveToken(mint)
            } else {
                old(self).mode_spec()
            },
            final(self).pending_spec() == old(self).pending_spec(),
    {
        if !self.has_position(&mint) {
            let ghost before = self.positions_spec();
            self.positions.push(mint);
            proof {
                assert(self.positions_spec() =~= before.push(mint.bytes@));
                assert forall|a: int, b: int| 0 <= a < b < self.positions_spec().len()
                    implies self.positions_spec()[a] != self.positions_spec()[b] by {
                    if b == before.len() {
                        assert(before[a] == self.positions_spec()[a]);
                    }
                }
            }
        }
        if self.positions.len() == 1 {
            self.mode = Mode::PassiveToken(mint);
        }
    }

    /// Whether a sell may start: no buy in flight, and a token held. The
    /// mint held is returned.
    pub fn check_sell(&self) -> (r: Result<Pubkey, SellRefusal>)
        ensures
            self.pending_spec() ==> r == Err::<Pubkey, SellRefusal>(SellRefusal::BuyInProgress),
            !self.pending_spec() ==> match self.mode_spec() {
                Mode::PassiveToken(m) => r == Ok::<Pubkey, SellRefusal>(m),
                _ => r == Err::<Pubkey, SellRefusal>(SellRefusal::NotPassive),
            },
    {
        if self.pending_buy {
            return Err(SellRefusal::BuyInProgress);
        }
        match self.mode {
            Mode::PassiveToken(m) => Ok(m),
            _ => Err(SellRefusal::NotPassive),
        }
    }

    /// A sell of `mint` was broadcast: a position that is now fully sold is
    /// closed, and closing the last one returns the engine to `Sniffing`.
    /// Refused when no position is open in `mint`.
    pub fn on_sell_done(&mut self, mint: &Pubkey, fully_sold: bool) -> (r: Result<(), SellRefusal>)
        requires
            old(self).wf(),
        ensures
            final(self).wf(),
            final(self).pending_spec() == old(self).pending_spec(),
            !old(self).positions_spec().contains(mint.bytes@) ==> {
                &&& r == Err::<(), SellRefusal>(SellRefusal::PositionNotFound)
                &&& final(self).positions_spec() == old(self).positions_spec()
                &&& final(self).mode_spec() == old(self).mode_spec()
            },
            old(self).positions_spec().contains(mint.bytes@) && !fully_sold ==> {
                &&& r is Ok
                &&& final(self).positions_spec() == old(self).positions_spec()
                &&& final(self).mode_spec() == old(self).mode_spec()
            },
            old(self).positions_spec().contains(mint.bytes@) && fully_sold ==> {
                &&& r is Ok
                &&& final(self).positions_spec() == without_position(old(self).positions_spec(), mint.bytes@)
                &&& final(self).mode_spec() == if final(self).positions_spec().len() == 0 {
                    Mode::Sniffing
                } else {
                    old(self).mode_spec()
                }
            },
    {
        if !self.has_position(mint) {
            return Err(SellRefusal::PositionNotFound);
        }
        if !fully_sold {
            return Ok(());
        }
        let ghost before = self.positions_spec();
        let n = self.positions.len();
        let mut kept: Vec<Pubkey> = Vec::new();
        let mut i: usize = 0;
        while i < n
            invariant
                i <= n,
                n == self.positions@.len(),
                before == self.positions@.map_values(|k: Pubkey| k.bytes@),
                kept@.map_values(|k: Pubkey| k.bytes@) == without_position(before.take(i as int), mint.bytes@),
            decreases n - i,
        {
            let k = self.positions[i];
            proof {
                assert(before.take(i + 1).drop_last() =~= before.take(i as int));
                assert(before.take(i + 1).last() == k.bytes@);
                reveal(Seq::filter);
            }
            let ghost kv = kept@;
            if !(k == *mint) {
                kept.push(k);
                proof {
                    assert(kept@.map_values(|x: Pubkey| x.bytes@) =~= kv.map_values(|x: Pubkey| x.bytes@).push(k.bytes@));
                }
            }
            i = i + 1;
        }
        proof {
            assert(before.take(n as int) =~= before);
            lemma_filter_no_duplicates(before, mint.bytes@);
        }
        self.positions = kept;
        if self.positions.len() == 0 {
            self.mode = Mode::Sniffing;
        }
        Ok(())
    }
}

proof fn lemma_filter_no_duplicates(s: Seq<Seq<u8>>, x: Seq<u8>)
    requires
        s.no_duplicates(),
    ensures
        without_position(s, x).no_duplicates(),
    decreases s.len(),
{
    reveal(Seq::filter);
    let f = other_than(x);
    if s.len() > 0 {
        let s0 = s.drop_last();
        assert(s0.no_duplicates()) by {
            assert forall|a: int, b: int| 0 <= a < s0.len() && 0 <= b < s0.len() && a != b implies s0[a] != s0[b] by {
                assert(s0[a] == s[a] && s0[b] == s[b]);
            }
        }
        lemma_filter_no_duplicates(s0, x);
        let t0 = s0.filter(f);
        if f(s.last()) {
            assert(s.filter(f) == t0.push(s.last()));
            assert forall|a: int| 0 <= a < t0.len() implies #[trigger] t0[a] != s.last() by {
                assert(t0.contains(t0[a]));
                s0.lemma_filter_contains_rev(f, t0[a]);
                let q = choose|q: int| 0 <= q < s0.len() && s0[q] == t0[a];
                assert(s[q] == s0[q]);
                assert(q != s.len() - 1);
            }
            assert forall|a: int, b: int| 0 <= a < s.filter(f).len() && 0 <= b < s.filter(f).len() && a != b
                implies s.filter(f)[a] != s.filter(f)[b] by {
                if a < t0.len() && b < t0.len() {
                } else if a == t0.len() {
                    assert(t0[b] != s.last());
                } else {
                    assert(t0[a] != s.last());
                }
            }
        } else {
            assert(s.filter(f) == t0);
        }
    }
}

/// A buy that lands while the engine sniffs with no position puts it in
/// `PassiveToken` on that mint; selling all of that token then returns it to
/// `Sniffing` with no position.
pub proof fn lemma_buy_then_full_sell_returns_to_sniffing(mint: Seq<u8>)
    ensures
        with_position(Seq::<Seq<u8>>::empty(), mint).len() == 1,
        without_position(with_position(Seq::<Seq<u8>>::empty(), mint), mint).len() == 0,
{
    reveal(Seq::filter);
    let ps = with_position(Seq::<Seq<u8>>::empty(), mint);
    assert(ps =~= seq![mint]);
    assert(ps.drop_last() =~= Seq::<Seq<u8>>::empty());
    assert(Seq::<Seq<u8>>::empty().filter(other_than(mint)) =~= Seq::<Seq<u8>>::empty());
    assert(ps.filter(other_than(mint)) == ps.drop_last().filter(other_than(mint)));
}

} // verus!
