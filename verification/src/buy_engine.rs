//! Decision logic of the auto-buy engine: buy configuration checks, RPC
//! error classification and retry policy, simulation policy, rate limiting,
//! the circuit breaker, latency histories, tracing contexts and the
//! per-iteration decisions of the engine's main loop.

use vstd::prelude::*;

use crate::circuit_breaker::bump;
use crate::clock::{elapsed_micros, instant_now, unix_time_nanos};
use crate::engine::{
    bounded_push, send_decision, spec_send_decision, ExponentialBackoff, SampleHistory, SendDecision,
    LATENCY_HISTORY_CAP,
};
use crate::stats::{p99, p99_rank, sample_at_rank, sorted_samples};
use dashmap::DashMap;
use crate::strings::{contains, occurs_at, str_contains, str_eq};
use crate::text::{decimal, push_decimal, push_str};
use std::time::Instant;

verus! {

// ---------------------------------------------------------------------------
// Buy configuration
// ---------------------------------------------------------------------------

/// Buy configuration with its security limits.
#[derive(Debug, Clone, Copy)]
pub struct BuyConfig {
    pub enabled: bool,
    pub kill_switch: bool,
    /// Basis points (0-10000)
    pub slippage_bps: u16,
    pub max_slippage_bps: u16,
    pub taker_fee_bps: u16,
    pub max_tx_count_per_window: u32,
    /// In lamports
    pub max_total_spend_per_window: u64,
    pub window_duration_secs: u64,
    pub priority_fee_lamports: u64,
    pub max_compute_units: u32,
}

/// Why a buy configuration is refused.
#[derive(Debug, Clone, Copy, PartialEq, Eq, Structural)]
pub enum BuyConfigError {
    /// `slippage_bps` above 10000
    SlippageTooHigh(u16),
    /// `max_slippage_bps` above 10000
    MaxSlippageTooHigh(u16),
    /// `slippage_bps` above `max_slippage_bps`
    SlippageAboveMax(u16, u16),
    /// `taker_fee_bps` above 10000
    TakerFeeTooHigh(u16),
    /// `max_compute_units` outside 1..=1400000
    ComputeUnitsOutOfRange(u32),
    /// Buying is disabled
    Disabled,
    /// The kill switch is on
    KillSwitchActive,
}

/// The text of a configuration error.
pub open spec fn buy_config_error_text(e: BuyConfigError) -> Seq<char> {
    match e {
        BuyConfigError::SlippageTooHigh(v) => "slippage_bps "@ + decimal(v as nat) + " exceeds maximum 10000"@,
        BuyConfigError::MaxSlippageTooHigh(v) => "max_slippage_bps "@ + decimal(v as nat) + " exceeds maximum 10000"@,
        BuyConfigError::SlippageAboveMax(a, b) => "slippage_bps "@ + decimal(a as nat) + " exceeds max_slippage_bps "@
            + decimal(b as nat),
        BuyConfigError::TakerFeeTooHigh(v) => "taker_fee_bps "@ + decimal(v as nat) + " exceeds maximum 10000"@,
        BuyConfigError::ComputeUnitsOutOfRange(v) => "max_compute_units "@ + decimal(v as nat)
            + " out of valid range (1-1400000)"@,
        BuyConfigError::Disabled => "BuyConfig is disabled"@,
        BuyConfigError::KillSwitchActive => "Kill switch is active"@,
    }
}

impl BuyConfigError {
    /// The error's text.
    pub fn message(&self) -> (r: String)
        ensures
            r@ == buy_config_error_text(*self),
    {
        let mut s = String::new();
        match *self {
            BuyConfigError::SlippageTooHigh(v) => {
                push_str(&mut s, "slippage_bps ");
                push_decimal(&mut s, v as u128);
                push_str(&mut s, " exceeds maximum 10000");
            },
            BuyConfigError::MaxSlippageTooHigh(v) => {
                push_str(&mut s, "max_slippage_bps ");
                push_decimal(&mut s, v as u128);
                push_str(&mut s, " exceeds maximum 10000");
            },
            BuyConfigError::SlippageAboveMax(a, b) => {
                push_str(&mut s, "slippage_bps ");
                push_decimal(&mut s, a as u128);
                push_str(&mut s, " exceeds max_slippage_bps ");
                push_decimal(&mut s, b as u128);
            },
            BuyConfigError::TakerFeeTooHigh(v) => {
                push_str(&mut s, "taker_fee_bps ");
                push_decimal(&mut s, v as u128);
                push_str(&mut s, " exceeds maximum 10000");
            },
            BuyConfigError::ComputeUnitsOutOfRange(v) => {
                push_str(&mut s, "max_compute_units ");
                push_decimal(&mut s, v as u128);
                push_str(&mut s, " out of valid range (1-1400000)");
            },
            BuyConfigError::Disabled => {
                push_str(&mut s, "BuyConfig is disabled");
            },
            BuyConfigError::KillSwitchActive => {
                push_str(&mut s, "Kill switch is active");
            },
        }
        assert(s@ =~= buy_config_error_text(*self));
        s
    }
}

/// Most compute units a transaction may ask for.
pub const MAX_COMPUTE_UNITS: u32 = 1_400_000;

/// The verdict on a buy configuration: the first failing check, in order.
pub open spec fn buy_config_verdict(c: BuyConfig) -> Result<(), BuyConfigError> {
    if c.slippage_bps > 10000 {
        Err(BuyConfigError::SlippageTooHigh(c.slippage_bps))
    } else if c.max_slippage_bps > 10000 {
        Err(BuyConfigError::MaxSlippageTooHigh(c.max_slippage_bps))
    } else if c.slippage_bps > c.max_slippage_bps {
        Err(BuyConfigError::SlippageAboveMax(c.slippage_bps, c.max_slippage_bps))
    } else if c.taker_fee_bps > 10000 {
        Err(BuyConfigError::TakerFeeTooHigh(c.taker_fee_bps))
    } else if c.max_compute_units == 0 || c.max_compute_units > 1_400_000 {
        Err(BuyConfigError::ComputeUnitsOutOfRange(c.max_compute_units))
    } else if !c.enabled {
        Err(BuyConfigError::Disabled)
    } else if c.kill_switch {
        Err(BuyConfigError::KillSwitchActive)
    } else {
        Ok(())
    }
}

impl BuyConfig {
    /// Checks the configuration; the first failing check is reported.
    pub fn validate(&self) -> (r: Result<(), BuyConfigError>)
        ensures
            r == buy_config_verdict(*self),
    {
        if self.slippage_bps > 10000 {
            return Err(BuyConfigError::SlippageTooHigh(self.slippage_bps));
        }
        if self.max_slippage_bps > 10000 {
            return Err(BuyConfigError::MaxSlippageTooHigh(self.max_slippage_bps));
        }
        if self.slippage_bps > self.max_slippage_bps {
            return Err(BuyConfigError::SlippageAboveMax(self.slippage_bps, self.max_slippage_bps));
        }
        if self.taker_fee_bps > 10000 {
            return Err(BuyConfigError::TakerFeeTooHigh(self.taker_fee_bps));
        }
        if self.max_compute_units == 0 || self.max_compute_units > MAX_COMPUTE_UNITS {
            return Err(BuyConfigError::ComputeUnitsOutOfRange(self.max_compute_units));
        }
        if !self.enabled {
            return Err(BuyConfigError::Disabled);
        }
        if self.kill_switch {
            return Err(BuyConfigError::KillSwitchActive);
        }
        Ok(())
    }

    /// Whether buying is allowed: enabled and the kill switch off.
    pub fn is_buy_enabled(&self) -> (r: bool)
        ensures
            r == (self.enabled && !self.kill_switch),
    {
        self.enabled && !self.kill_switch
    }
}

impl Default for BuyConfig {
    fn default() -> (c: BuyConfig)
        ensures
            c.enabled,
            !c.kill_switch,
            c.slippage_bps == 100,
            c.max_slippage_bps == 500,
            c.taker_fee_bps == 25,
            c.max_tx_count_per_window == 10,
            c.max_total_spend_per_window == 1_000_000_000,
            c.window_duration_secs == 60,
            c.priority_fee_lamports == 10_000,
            c.max_compute_units == 200_000,
    {
        BuyConfig {
            enabled: true,
            kill_switch: false,
            slippage_bps: 100,
            max_slippage_bps: 500,
            taker_fee_bps: 25,
            max_tx_count_per_window: 10,
            max_total_spend_per_window: 1_000_000_000,
            window_duration_secs: 60,
            priority_fee_lamports: 10_000,
            max_compute_units: 200_000,
        }
    }
}

/// The default buy configuration passes its own checks.
pub proof fn lemma_default_buy_config_valid(c: BuyConfig)
    requires
        c.enabled,
        !c.kill_switch,
        c.slippage_bps == 100,
        c.max_slippage_bps == 500,
        c.taker_fee_bps == 25,
        c.max_compute_units == 200_000,
    ensures
        buy_config_verdict(c) == Ok::<(), BuyConfigError>(()),
{
}

// ---------------------------------------------------------------------------
// RPC error classification
// ---------------------------------------------------------------------------

/// Classes of RPC errors, each with its own handling.
#[derive(Debug, Clone, Copy, PartialEq, Eq, Structural)]
pub enum RpcErrorClass {
    /// Retry immediately
    Transient,
    /// Backoff required
    RateLimit,
    /// Need fresh blockhash
    BadBlockhash,
    /// Nonce collision
    AccountInUse,
    InsufficientFunds,
    /// Don't retry
    Permanent,
    /// Try different endpoint
    NetworkError,
}

/// The class of an error whose lower-cased message is `m`: the first rule
/// whose phrases occur in the message decides.
pub open spec fn classify_lowercase(m: Seq<char>) -> RpcErrorClass {
    if contains(m, "rate limit"@) || contains(m, "too many requests"@) {
        RpcErrorClass::RateLimit
    } else if contains(m, "blockhash not found"@) || contains(m, "block height exceeded"@) {
        RpcErrorClass::BadBlockhash
    } else if contains(m, "account in use"@) || contains(m, "nonce"@) {
        RpcErrorClass::AccountInUse
    } else if contains(m, "insufficient funds"@) || contains(m, "insufficient lamports"@) {
        RpcErrorClass::InsufficientFunds
    } else if contains(m, "connection"@) || contains(m, "timeout"@) || contains(m, "network"@) {
        RpcErrorClass::NetworkError
    } else if contains(m, "invalid"@) || contains(m, "malformed"@) {
        RpcErrorClass::Permanent
    } else {
        RpcErrorClass::Transient
    }
}

/// Whether a lower-cased message reports a rate limit.
pub open spec fn mentions_rate_limit(m: Seq<char>) -> bool {
    contains(m, "rate limit"@) || contains(m, "too many requests"@)
}

/// Whether a lower-cased message reports an expired blockhash.
pub open spec fn mentions_expired_blockhash(m: Seq<char>) -> bool {
    contains(m, "blockhash not found"@) || contains(m, "block height exceeded"@)
}

/// Whether a lower-cased message reports an account or nonce collision.
pub open spec fn mentions_account_in_use(m: Seq<char>) -> bool {
    contains(m, "account in use"@) || contains(m, "nonce"@)
}

/// Whether a lower-cased message reports missing funds.
pub open spec fn mentions_missing_funds(m: Seq<char>) -> bool {
    contains(m, "insufficient funds"@) || contains(m, "insufficient lamports"@)
}

/// Whether a lower-cased message reports a network failure.
pub open spec fn mentions_network_failure(m: Seq<char>) -> bool {
    contains(m, "connection"@) || contains(m, "timeout"@) || contains(m, "network"@)
}

/// Whether a lower-cased message reports a malformed request.
pub open spec fn mentions_malformed_request(m: Seq<char>) -> bool {
    contains(m, "invalid"@) || contains(m, "malformed"@)
}

/// A rate limit is always classed as such, and retried after a backoff.
pub proof fn lemma_rate_limit_class(m: Seq<char>)
    requires
        mentions_rate_limit(m),
    ensures
        classify_lowercase(m) == RpcErrorClass::RateLimit,
        spec_is_retryable(classify_lowercase(m)),
{
}

/// An expired blockhash, unless the message also reports a rate limit.
pub proof fn lemma_expired_blockhash_class(m: Seq<char>)
    requires
        mentions_expired_blockhash(m),
        !mentions_rate_limit(m),
    ensures
        classify_lowercase(m) == RpcErrorClass::BadBlockhash,
        spec_is_retryable(classify_lowercase(m)),
{
}

/// An account or nonce collision, when no earlier rule applies; such an
/// error is not retried.
pub proof fn lemma_account_in_use_class(m: Seq<char>)
    requires
        mentions_account_in_use(m),
        !mentions_rate_limit(m),
        !mentions_expired_blockhash(m),
    ensures
        classify_lowercase(m) == RpcErrorClass::AccountInUse,
        !spec_is_retryable(classify_lowercase(m)),
{
}

/// Missing funds, when no earlier rule applies; a send that cannot be paid
/// for is not retried.
pub proof fn lemma_missing_funds_class(m: Seq<char>)
    requires
        mentions_missing_funds(m),
        !mentions_rate_limit(m),
        !mentions_expired_blockhash(m),
        !mentions_account_in_use(m),
    ensures
        classify_lowercase(m) == RpcErrorClass::InsufficientFunds,
        !spec_is_retryable(classify_lowercase(m)),
{
}

/// A network failure, when no earlier rule applies; it is retried on
/// another endpoint.
pub proof fn lemma_network_failure_class(m: Seq<char>)
    requires
        mentions_network_failure(m),
        !mentions_rate_limit(m),
        !mentions_expired_blockhash(m),
        !mentions_account_in_use(m),
        !mentions_missing_funds(m),
    ensures
        classify_lowercase(m) == RpcErrorClass::NetworkError,
        spec_is_retryable(classify_lowercase(m)),
{
}

/// A malformed request, when no earlier rule applies; it is never retried.
pub proof fn lemma_malformed_request_class(m: Seq<char>)
    requires
        mentions_malformed_request(m),
        !mentions_rate_limit(m),
        !mentions_expired_blockhash(m),
        !mentions_account_in_use(m),
        !mentions_missing_funds(m),
        !mentions_network_failure(m),
    ensures
        classify_lowercase(m) == RpcErrorClass::Permanent,
        !spec_is_retryable(classify_lowercase(m)),
{
}

/// A message that reports none of the known failures is transient and
/// retried.
pub proof fn lemma_unrecognised_error_is_transient(m: Seq<char>)
    requires
        !mentions_rate_limit(m),
        !mentions_expired_blockhash(m),
        !mentions_account_in_use(m),
        !mentions_missing_funds(m),
        !mentions_network_failure(m),
        !mentions_malformed_request(m),
    ensures
        classify_lowercase(m) == RpcErrorClass::Transient,
        spec_is_retryable(classify_lowercase(m)),
{
}

/// A message that names a phrase at a given place contains it; so, for
/// instance, a message with "insufficient funds" at position `i` and none
/// of the phrases of the earlier rules is classed as missing funds.
pub proof fn lemma_phrase_at_position_is_found(m: Seq<char>, phrase: Seq<char>, i: int)
    requires
        0 <= i,
        i + phrase.len() <= m.len(),
        m.subrange(i, i + phrase.len()) == phrase,
    ensures
        contains(m, phrase),
{
    assert(occurs_at(m, phrase, i));
}

/// The lower-case form of a text, as `str::to_lowercase` computes it.
pub uninterp spec fn lowercase(s: Seq<char>) -> Seq<char>;

/// `str::to_lowercase`.
#[verifier::external_body]
fn str_to_lowercase(s: &str) -> (r: String)
    ensures
        r@ == lowercase(s@),
{
    s.to_lowercase()
}

pub open spec fn spec_is_retryable(c: RpcErrorClass) -> bool {
    c == RpcErrorClass::Transient || c == RpcErrorClass::RateLimit
        || c == RpcErrorClass::BadBlockhash || c == RpcErrorClass::NetworkError
}

impl RpcErrorClass {
    /// Classifies an already lower-cased error message.
    pub fn classify_lowercased(m: &str) -> (r: RpcErrorClass)
        ensures
            r == classify_lowercase(m@),
    {
        if str_contains(m, "rate limit") || str_contains(m, "too many requests") {
            RpcErrorClass::RateLimit
        } else if str_contains(m, "blockhash not found") || str_contains(m, "block height exceeded") {
            RpcErrorClass::BadBlockhash
        } else if str_contains(m, "account in use") || str_contains(m, "nonce") {
            RpcErrorClass::AccountInUse
        } else if str_contains(m, "insufficient funds") || str_contains(m, "insufficient lamports") {
            RpcErrorClass::InsufficientFunds
        } else if str_contains(m, "connection") || str_contains(m, "timeout") || str_contains(m, "network") {
            RpcErrorClass::NetworkError
        } else if str_contains(m, "invalid") || str_contains(m, "malformed") {
            RpcErrorClass::Permanent
        } else {
            RpcErrorClass::Transient
        }
    }

    /// Classifies an error by its message, compared case-insensitively.
    pub fn classify(error_message: &str) -> (r: RpcErrorClass)
        ensures
            r == classify_lowercase(lowercase(error_message@)),
    {
        let lower = str_to_lowercase(error_message);
        Self::classify_lowercased(lower.as_str())
    }

    /// Whether errors of this class are worth retrying.
    pub fn is_retryable(&self) -> (r: bool)
        ensures
            r == spec_is_retryable(*self),
    {
        match self {
            RpcErrorClass::Transient | RpcErrorClass::RateLimit | RpcErrorClass::BadBlockhash
            | RpcErrorClass::NetworkError => true,
            _ => false,
        }
    }

    /// The name of this class.
    pub fn name(&self) -> (r: &'static str)
        ensures
            r@ == rpc_error_class_name(*self),
    {
        match self {
            RpcErrorClass::Transient => "Transient",
            RpcErrorClass::RateLimit => "RateLimit",
            RpcErrorClass::BadBlockhash => "BadBlockhash",
            RpcErrorClass::AccountInUse => "AccountInUse",
            RpcErrorClass::InsufficientFunds => "InsufficientFunds",
            RpcErrorClass::Permanent => "Permanent",
            RpcErrorClass::NetworkError => "NetworkError",
        }
    }
}

pub open spec fn rpc_error_class_name(c: RpcErrorClass) -> Seq<char> {
    match c {
        RpcErrorClass::Transient => "Transient"@,
        RpcErrorClass::RateLimit => "RateLimit"@,
        RpcErrorClass::BadBlockhash => "BadBlockhash"@,
        RpcErrorClass::AccountInUse => "AccountInUse"@,
        RpcErrorClass::InsufficientFunds => "InsufficientFunds"@,
        RpcErrorClass::Permanent => "Permanent"@,
        RpcErrorClass::NetworkError => "NetworkError"@,
    }
}

// ---------------------------------------------------------------------------
// Simulation policy
// ---------------------------------------------------------------------------

/// What to do with a failed simulation.
#[derive(Debug, Clone, Copy, PartialEq, Eq, Structural)]
pub enum SimulationPolicy {
    BlockOnCritical,
    WarnOnAdvisory,
    AlwaysAllow,
}

/// The outcome of simulating a transaction.
#[derive(Debug)]
pub enum SimulationResult {
    Success,
    CriticalFailure(String),
    AdvisoryFailure(String),
}

impl SimulationResult {
    /// Whether to go on after this simulation outcome: success and advisory
    /// failures always go on; a critical failure goes on only under
    /// `AlwaysAllow`.
    pub fn should_proceed(&self, policy: SimulationPolicy) -> (r: bool)
        ensures
            r == match *self {
                SimulationResult::CriticalFailure(_) => policy == SimulationPolicy::AlwaysAllow,
                _ => true,
            },
    {
        match (self, policy) {
            (SimulationResult::Success, _) => true,
            (SimulationResult::CriticalFailure(_), SimulationPolicy::AlwaysAllow) => true,
            (SimulationResult::CriticalFailure(_), _) => false,
            (SimulationResult::AdvisoryFailure(_), _) => true,
        }
    }
}

/// States of the engine's automaton.
#[derive(Debug, Clone, Copy, PartialEq, Eq, Structural)]
pub enum UniverseState {
    Sniffing,
    /// Confidence 0-100
    PredictiveSurge { confidence: u8 },
    PassiveToken,
    MultiTokenPortfolio,
    CircuitBreakerOpen,
    QuantumManual,
}

/// A block-engine endpoint for bundle submission.
#[derive(Debug)]
pub struct JitoEndpoint {
    pub region: String,
    pub url: String,
    pub priority: u8,
}

/// A chain reachable through the bridge.
#[derive(Debug, Clone)]
pub struct ChainConfig {
    pub chain_id: u16,
    pub name: String,
    pub rpc_url: String,
    pub enabled: bool,
}

/// Cross-chain bridge configuration.
#[derive(Debug)]
pub struct CrossChainConfig {
    pub wormhole_enabled: bool,
    pub supported_chains: Vec<ChainConfig>,
    pub bridge_contracts: std::collections::HashMap<String, crate::pubkey::Pubkey>,
}

impl Default for CrossChainConfig {
    /// Bridging off; Ethereum (chain 1) and BSC (chain 56) known but
    /// disabled; no bridge contracts.
    fn default() -> (c: Self)
        ensures
            !c.wormhole_enabled,
            c.supported_chains@.len() == 2,
            c.supported_chains@[0].chain_id == 1,
            c.supported_chains@[0].name@ == "Ethereum"@,
            c.supported_chains@[0].rpc_url@ == "https://eth-mainnet.alchemyapi.io/v2/"@,
            !c.supported_chains@[0].enabled,
            c.supported_chains@[1].chain_id == 56,
            c.supported_chains@[1].name@ == "BSC"@,
            c.supported_chains@[1].rpc_url@ == "https://bsc-dataseed.binance.org/"@,
            !c.supported_chains@[1].enabled,
            c.bridge_contracts@ == Map::<String, crate::pubkey::Pubkey>::empty(),
    {
        CrossChainConfig {
            wormhole_enabled: false,
            supported_chains: vec![
                ChainConfig {
                    chain_id: 1,
                    name: String::from_str("Ethereum"),
                    rpc_url: String::from_str("https://eth-mainnet.alchemyapi.io/v2/"),
                    enabled: false,
                },
                ChainConfig {
                    chain_id: 56,
                    name: String::from_str("BSC"),
                    rpc_url: String::from_str("https://bsc-dataseed.binance.org/"),
                    enabled: false,
                },
            ],
            bridge_contracts: std::collections::HashMap::new(),
        }
    }
}

// ---------------------------------------------------------------------------
// Tracing
// ---------------------------------------------------------------------------

/// Span tracking for one engine operation.
#[derive(Debug, Clone)]
pub struct TraceContext {
    pub span_id: String,
    pub trace_id: String,
    pub start_time: Instant,
}

impl TraceContext {
    /// A context for `operation` stamped with the current time `t` (in
    /// nanoseconds since the Unix epoch): span id `"{operation}_{t}"`, trace
    /// id `"trace_{t}"`.
    pub fn new(operation: &str) -> (c: Self)
        ensures
            exists|t: u128| {
                &&& c.span_id@ == operation@ + "_"@ + decimal(t as nat)
                &&& c.trace_id@ == "trace_"@ + decimal(t as nat)
            },
    {
        let t = unix_time_nanos();
        let mut span_id = String::new();
        push_str(&mut span_id, operation);
        push_str(&mut span_id, "_");
        push_decimal(&mut span_id, t);
        let mut trace_id = String::new();
        push_str(&mut trace_id, "trace_");
        push_decimal(&mut trace_id, t);
        assert(span_id@ =~= operation@ + "_"@ + decimal(t as nat));
        assert(trace_id@ =~= "trace_"@ + decimal(t as nat));
        TraceContext { span_id, trace_id, start_time: instant_now() }
    }

    /// Microseconds since the context was created.
    pub fn elapsed_micros(&self) -> u128 {
        elapsed_micros(&self.start_time)
    }
}

// ---------------------------------------------------------------------------
// Engine metrics
// ---------------------------------------------------------------------------

/// Counters by key text (program name or error class).
pub type CountMap = DashMap<String, u64>;

/// The counts held by a count map, by key text.
pub uninterp spec fn counts(m: CountMap) -> Map<Seq<char>, u64>;

/// `DashMap::new`: an empty map.
#[verifier::external_body]
fn count_map_new() -> (m: CountMap)
    ensures
        counts(m).is_empty(),
{
    DashMap::new()
}

/// `DashMap::get`: the count stored under `key`, if any.
#[verifier::external_body]
fn count_map_get(m: &CountMap, key: &str) -> (r: Option<u64>)
    ensures
        r == (if counts(*m).contains_key(key@) { Some(counts(*m)[key@]) } else { None }),
{
    m.get(key).map(|e| *e.value())
}

/// `DashMap::insert`: stores `v` under `key`, replacing any previous count.
#[verifier::external_body]
fn count_map_insert(m: &mut CountMap, key: String, v: u64)
    ensures
        counts(*final(m)) == counts(*old(m)).insert(key@, v),
{
    m.insert(key, v);
}

/// The count of `k`: zero when it was never counted.
pub open spec fn count_of(m: Map<Seq<char>, u64>, k: Seq<char>) -> u64 {
    if m.contains_key(k) { m[k] } else { 0 }
}

/// The counts after one more event under `k` (the counter wraps).
pub open spec fn counted(m: Map<Seq<char>, u64>, k: Seq<char>) -> Map<Seq<char>, u64> {
    m.insert(k, bump(count_of(m, k)))
}

fn count_one(m: &mut CountMap, key: &str)
    ensures
        counts(*final(m)) == counted(counts(*old(m)), key@),
{
    let c = match count_map_get(m, key) {
        Some(c) => c,
        None => 0,
    };
    let next = if c == u64::MAX { 0 } else { c + 1 };
    count_map_insert(m, key.to_string(), next);
}

/// Engine-level metrics: latency histories, per-program results, RPC error
/// classes, simulation failures, retries, blockhash ages, the in-flight
/// queue depth and mempool rejections.
pub struct UniverseMetrics {
    pub sniff_to_buy_latency: SampleHistory<u64>,
    pub build_to_land_latency: SampleHistory<u64>,
    pub program_success_counts: CountMap,
    pub program_failure_counts: CountMap,
    pub rpc_error_counts: CountMap,
    pub simulate_failures: u64,
    pub simulate_critical_failures: u64,
    pub retries_per_tx: SampleHistory<u32>,
    pub blockhash_age_at_signing: SampleHistory<u128>,
    pub inflight_queue_depth: u64,
    pub mempool_rejections: u64,
}

/// A counter one lower, wrapping below zero.
pub open spec fn unbump(count: u64) -> u64 {
    if count == 0 { u64::MAX } else { (count - 1) as u64 }
}

/// Whether the send loop stops after this decision.
pub open spec fn gives_up(d: SendDecision) -> bool {
    d is GiveUp || d is BlockhashExpired
}

/// The send loop's step after attempt `attempt` failed with
/// `error_message`: the error is counted under its class, the decision is
/// taken, and a transaction the loop gives up on leaves the in-flight count.
pub fn on_send_failure(
    metrics: &mut UniverseMetrics,
    backoff: &ExponentialBackoff,
    attempt: u32,
    error_message: &str,
    endpoint_idx: u64,
    endpoints: usize,
) -> (d: SendDecision)
    requires
        endpoint_idx < u64::MAX,
    ensures
        d == spec_send_decision(
            attempt < backoff.max_retries,
            classify_lowercase(lowercase(error_message@)),
            endpoint_idx,
            endpoints as nat,
        ),
        counts(final(metrics).rpc_error_counts) == counted(
            counts(old(metrics).rpc_error_counts),
            rpc_error_class_name(classify_lowercase(lowercase(error_message@))),
        ),
        final(metrics).inflight_queue_depth == if gives_up(d) {
            unbump(old(metrics).inflight_queue_depth)
        } else {
            old(metrics).inflight_queue_depth
        },
        *final(metrics) == (UniverseMetrics {
            rpc_error_counts: final(metrics).rpc_error_counts,
            inflight_queue_depth: final(metrics).inflight_queue_depth,
            ..*old(metrics)
        }),
        old(metrics).wf() ==> final(metrics).wf(),
{
    let class = RpcErrorClass::classify(error_message);
    metrics.record_rpc_error(class.name());
    let d = send_decision(backoff, attempt, class, endpoint_idx, endpoints);
    match d {
        SendDecision::GiveUp | SendDecision::BlockhashExpired => metrics.decrement_inflight(),
        _ => {},
    }
    d
}

/// A send that fails for good leaves the in-flight depth where it was
/// before the send began: the transaction enters flight, the failure is
/// counted once under its class, the loop gives up, and the transaction
/// leaves flight; nothing else in the metrics changes.
pub proof fn lemma_failed_send_restores_depth(
    m0: UniverseMetrics,
    m1: UniverseMetrics,
    m2: UniverseMetrics,
    class: RpcErrorClass,
    d: SendDecision,
)
    requires
        m1.inflight_queue_depth == bump(m0.inflight_queue_depth),
        m1 == (UniverseMetrics { inflight_queue_depth: m1.inflight_queue_depth, ..m0 }),
        gives_up(d),
        counts(m2.rpc_error_counts) == counted(counts(m1.rpc_error_counts), rpc_error_class_name(class)),
        m2.inflight_queue_depth == unbump(m1.inflight_queue_depth),
        m2 == (UniverseMetrics {
            rpc_error_counts: m2.rpc_error_counts,
            inflight_queue_depth: m2.inflight_queue_depth,
            ..m1
        }),
    ensures
        m2.inflight_queue_depth == m0.inflight_queue_depth,
        counts(m2.rpc_error_counts) == counted(counts(m0.rpc_error_counts), rpc_error_class_name(class)),
        m2 == (UniverseMetrics {
            rpc_error_counts: m2.rpc_error_counts,
            inflight_queue_depth: m0.inflight_queue_depth,
            ..m0
        }),
{
}

/// An error whose class is not worth retrying ends the send loop at once.
pub proof fn lemma_unretryable_error_gives_up(
    retries_left: bool,
    class: RpcErrorClass,
    endpoint_idx: u64,
    endpoints: nat,
)
    requires
        !spec_is_retryable(class),
    ensures
        spec_send_decision(retries_left, class, endpoint_idx, endpoints) == SendDecision::GiveUp,
{
}

/// The latency history that a metric name refers to: `sniff_to_buy`,
/// `build_to_land`, or none.
pub open spec fn latency_history(m: UniverseMetrics, metric: Seq<char>) -> Option<Seq<u64>> {
    if metric == "sniff_to_buy"@ {
        Some(m.sniff_to_buy_latency.view_seq())
    } else if metric == "build_to_land"@ {
        Some(m.build_to_land_latency.view_seq())
    } else {
        None
    }
}

impl UniverseMetrics {
    /// Every history holds at most its bound of 1000.
    pub open spec fn wf(&self) -> bool {
        &&& self.sniff_to_buy_latency.wf()
        &&& self.build_to_land_latency.wf()
        &&& self.retries_per_tx.wf()
        &&& self.blockhash_age_at_signing.wf()
        &&& self.sniff_to_buy_latency.cap_spec() == 1000
        &&& self.build_to_land_latency.cap_spec() == 1000
        &&& self.retries_per_tx.cap_spec() == 1000
        &&& self.blockhash_age_at_signing.cap_spec() == 1000
    }

    /// Empty histories and maps, every counter zero.
    pub fn new() -> (m: Self)
        ensures
            m.wf(),
            m.sniff_to_buy_latency.view_seq() == Seq::<u64>::empty(),
            m.build_to_land_latency.view_seq() == Seq::<u64>::empty(),
            m.retries_per_tx.view_seq() == Seq::<u32>::empty(),
            m.blockhash_age_at_signing.view_seq() == Seq::<u128>::empty(),
            counts(m.program_success_counts).is_empty(),
            counts(m.program_failure_counts).is_empty(),
            counts(m.rpc_error_counts).is_empty(),
            m.simulate_failures == 0,
            m.simulate_critical_failures == 0,
            m.inflight_queue_depth == 0,
            m.mempool_rejections == 0,
    {
        UniverseMetrics {
            sniff_to_buy_latency: SampleHistory::new(LATENCY_HISTORY_CAP),
            build_to_land_latency: SampleHistory::new(LATENCY_HISTORY_CAP),
            program_success_counts: count_map_new(),
            program_failure_counts: count_map_new(),
            rpc_error_counts: count_map_new(),
            simulate_failures: 0,
            simulate_critical_failures: 0,
            retries_per_tx: SampleHistory::new(1000),
            blockhash_age_at_signing: SampleHistory::new(1000),
            inflight_queue_depth: 0,
            mempool_rejections: 0,
        }
    }

    /// Records a latency under a metric name; names other than
    /// `sniff_to_buy` and `build_to_land` are ignored.
    pub fn record_latency(&mut self, metric: &str, micros: u64)
        requires
            old(self).wf(),
        ensures
            final(self).wf(),
            final(self).sniff_to_buy_latency.view_seq() == if metric@ == "sniff_to_buy"@ {
                bounded_push(old(self).sniff_to_buy_latency.view_seq(), micros, 1000)
            } else {
                old(self).sniff_to_buy_latency.view_seq()
            },
            final(self).build_to_land_latency.view_seq() == if metric@ == "build_to_land"@ {
                bounded_push(old(self).build_to_land_latency.view_seq(), micros, 1000)
            } else {
                old(self).build_to_land_latency.view_seq()
            },
            *final(self) == (UniverseMetrics {
                sniff_to_buy_latency: final(self).sniff_to_buy_latency,
                build_to_land_latency: final(self).build_to_land_latency,
                ..*old(self)
            }),
    {
        proof {
            reveal_strlit("sniff_to_buy");
            reveal_strlit("build_to_land");
            assert("sniff_to_buy"@.len() != "build_to_land"@.len());
        }
        if str_eq(metric, "sniff_to_buy") {
            self.sniff_to_buy_latency.record(micros);
        } else if str_eq(metric, "build_to_land") {
            self.build_to_land_latency.record(micros);
        }
    }

    /// Counts a success or a failure of `program`.
    pub fn record_program_result(&mut self, program: &str, success: bool)
        ensures
            success ==> counts(final(self).program_success_counts)
                == counted(counts(old(self).program_success_counts), program@),
            success ==> counts(final(self).program_failure_counts) == counts(old(self).program_failure_counts),
            !success ==> counts(final(self).program_failure_counts)
                == counted(counts(old(self).program_failure_counts), program@),
            !success ==> counts(final(self).program_success_counts) == counts(old(self).program_success_counts),
            old(self).wf() ==> final(self).wf(),
            *final(self) == (UniverseMetrics {
                program_success_counts: final(self).program_success_counts,
                program_failure_counts: final(self).program_failure_counts,
                ..*old(self)
            }),
    {
        if success {
            count_one(&mut self.program_success_counts, program);
        } else {
            count_one(&mut self.program_failure_counts, program);
        }
    }

    /// Counts an RPC error of class `error_class`.
    pub fn record_rpc_error(&mut self, error_class: &str)
        ensures
            counts(final(self).rpc_error_counts) == counted(counts(old(self).rpc_error_counts), error_class@),
            old(self).wf() ==> final(self).wf(),
            *final(self) == (UniverseMetrics { rpc_error_counts: final(self).rpc_error_counts, ..*old(self) }),
    {
        count_one(&mut self.rpc_error_counts, error_class);
    }

    /// The count of `key` in one of the maps.
    pub fn count(m: &CountMap, key: &str) -> (n: u64)
        ensures
            n == count_of(counts(*m), key@),
    {
        match count_map_get(m, key) {
            Some(c) => c,
            None => 0,
        }
    }

    /// Counts a failed simulation, and a critical one separately.
    pub fn record_simulation_failure(&mut self, is_critical: bool)
        ensures
            final(self).simulate_failures == bump(old(self).simulate_failures),
            final(self).simulate_critical_failures == if is_critical {
                bump(old(self).simulate_critical_failures)
            } else {
                old(self).simulate_critical_failures
            },
            old(self).wf() ==> final(self).wf(),
            *final(self) == (UniverseMetrics {
                simulate_failures: final(self).simulate_failures,
                simulate_critical_failures: final(self).simulate_critical_failures,
                ..*old(self)
            }),
    {
        self.simulate_failures = if self.simulate_failures == u64::MAX { 0 } else { self.simulate_failures + 1 };
        if is_critical {
            self.simulate_critical_failures = if self.simulate_critical_failures == u64::MAX {
                0
            } else {
                self.simulate_critical_failures + 1
            };
        }
    }

    /// Records how many retries a transaction took.
    pub fn record_retry_count(&mut self, retries: u32)
        requires
            old(self).wf(),
        ensures
            final(self).wf(),
            final(self).retries_per_tx.view_seq() == bounded_push(old(self).retries_per_tx.view_seq(), retries, 1000),
            *final(self) == (UniverseMetrics { retries_per_tx: final(self).retries_per_tx, ..*old(self) }),
    {
        self.retries_per_tx.record(retries);
    }

    /// Records the age of the blockhash a transaction was signed with.
    pub fn record_blockhash_age(&mut self, age_ms: u128)
        requires
            old(self).wf(),
        ensures
            final(self).wf(),
            final(self).blockhash_age_at_signing.view_seq()
                == bounded_push(old(self).blockhash_age_at_signing.view_seq(), age_ms, 1000),
            *final(self) == (UniverseMetrics { blockhash_age_at_signing: final(self).blockhash_age_at_signing, ..*old(self) }),
    {
        self.blockhash_age_at_signing.record(age_ms);
    }

    /// One more transaction in flight (the counter wraps).
    pub fn increment_inflight(&mut self)
        ensures
            final(self).inflight_queue_depth == bump(old(self).inflight_queue_depth),
            old(self).wf() ==> final(self).wf(),
            *final(self) == (UniverseMetrics { inflight_queue_depth: final(self).inflight_queue_depth, ..*old(self) }),
    {
        self.inflight_queue_depth = if self.inflight_queue_depth == u64::MAX { 0 } else { self.inflight_queue_depth + 1 };
    }

    /// One transaction less in flight (the counter wraps below zero).
    pub fn decrement_inflight(&mut self)
        ensures
            final(self).inflight_queue_depth == unbump(old(self).inflight_queue_depth),
            old(self).wf() ==> final(self).wf(),
            *final(self) == (UniverseMetrics { inflight_queue_depth: final(self).inflight_queue_depth, ..*old(self) }),
    {
        self.inflight_queue_depth = if self.inflight_queue_depth == 0 { u64::MAX } else { self.inflight_queue_depth - 1 };
    }

    /// The number of transactions in flight.
    pub fn get_inflight_depth(&self) -> (n: u64)
        ensures
            n == self.inflight_queue_depth,
    {
        self.inflight_queue_depth
    }

    /// Counts a transaction the mempool would not take.
    pub fn record_mempool_rejection(&mut self)
        ensures
            final(self).mempool_rejections == bump(old(self).mempool_rejections),
            old(self).wf() ==> final(self).wf(),
            *final(self) == (UniverseMetrics { mempool_rejections: final(self).mempool_rejections, ..*old(self) }),
    {
        self.mempool_rejections = if self.mempool_rejections == u64::MAX { 0 } else { self.mempool_rejections + 1 };
    }

    /// The 99th percentile latency of a metric; none for an unknown metric
    /// or an empty history.
    pub fn get_p99_latency(&self, metric: &str) -> (r: Option<u64>)
        ensures
            match latency_history(*self, metric@) {
                None => r is None,
                Some(h) => if h.len() == 0 { r is None } else { r == Some(sorted_samples(h)[p99_rank(h.len())]) },
            },
    {
        proof {
            reveal_strlit("sniff_to_buy");
            reveal_strlit("build_to_land");
        }
        if str_eq(metric, "sniff_to_buy") {
            let v = self.sniff_to_buy_latency.to_vec();
            p99(v.as_slice())
        } else if str_eq(metric, "build_to_land") {
            let v = self.build_to_land_latency.to_vec();
            p99(v.as_slice())
        } else {
            None
        }
    }

    /// The latency of rank `rank` (from zero, ascending; the largest past the
    /// end) of a metric; none for an unknown metric or an empty history.
    pub fn latency_at_rank(&self, metric: &str, rank: usize) -> (r: Option<u64>)
        ensures
            match latency_history(*self, metric@) {
                None => r is None,
                Some(h) => if h.len() == 0 {
                    r is None
                } else {
                    r == Some(sorted_samples(h)[if rank < h.len() { rank as int } else { h.len() - 1 }])
                },
            },
    {
        proof {
            reveal_strlit("sniff_to_buy");
            reveal_strlit("build_to_land");
        }
        if str_eq(metric, "sniff_to_buy") {
            let v = self.sniff_to_buy_latency.to_vec();
            sample_at_rank(v.as_slice(), rank)
        } else if str_eq(metric, "build_to_land") {
            let v = self.build_to_land_latency.to_vec();
            sample_at_rank(v.as_slice(), rank)
        } else {
            None
        }
    }
}

} // verus!

verus! {

// ---------------------------------------------------------------------------
// Learned backoff
// ---------------------------------------------------------------------------

/// The outcomes seen after waiting `delay_ms` before a retry.
#[derive(Debug, Clone, Copy, PartialEq, Eq, Structural)]
pub struct DelayOutcomes {
    pub delay_ms: u64,
    pub successes: u32,
    pub attempts: u32,
}

/// Whether the success rate `s1/t1` is below `s2/t2` (a rate with no
/// attempts counts as zero).
pub open spec fn rate_below(s1: u32, t1: u32, s2: u32, t2: u32) -> bool {
    if t1 == 0 {
        t2 > 0 && s2 > 0
    } else if t2 == 0 {
        false
    } else {
        s1 * t2 < s2 * t1
    }
}

/// No delay is recorded twice.
pub open spec fn distinct_delays(h: Seq<DelayOutcomes>) -> bool {
    forall|i: int, j: int| 0 <= i < j < h.len() ==> #[trigger] h[i].delay_ms != #[trigger] h[j].delay_ms
}

/// The outcomes after one more retry with `delay_ms`: its entry (new if
/// needed) counts one more attempt, and one more success if it succeeded.
/// Counters wrap.
pub open spec fn with_outcome(h: Seq<DelayOutcomes>, delay_ms: u64, success: bool) -> Seq<DelayOutcomes> {
    if exists|i: int| 0 <= i < h.len() && h[i].delay_ms == delay_ms {
        let i = choose|i: int| 0 <= i < h.len() && h[i].delay_ms == delay_ms;
        h.update(i, bumped_outcome(h[i], success))
    } else {
        h.push(bumped_outcome(DelayOutcomes { delay_ms, successes: 0, attempts: 0 }, success))
    }
}

pub open spec fn wrap_inc(x: u32) -> u32 {
    if x == u32::MAX { 0 } else { (x + 1) as u32 }
}

pub open spec fn bumped_outcome(e: DelayOutcomes, success: bool) -> DelayOutcomes {
    DelayOutcomes {
        delay_ms: e.delay_ms,
        successes: if success { wrap_inc(e.successes) } else { e.successes },
        attempts: wrap_inc(e.attempts),
    }
}

/// The outcomes kept after pruning: when more than 100 delays are known,
/// only those tried more than five times stay.
pub open spec fn pruned(h: Seq<DelayOutcomes>) -> Seq<DelayOutcomes> {
    if h.len() > 100 { h.filter(|e: DelayOutcomes| e.attempts > 5) } else { h }
}

/// The exploratory delay after `failures` failures: the base doubled per
/// failure (at most ten times), capped at the maximum.
pub open spec fn exploratory_delay(base_ms: u64, max_ms: u64, failures: u32) -> int {
    let k: nat = if failures < 10 { failures as nat } else { 10 };
    let raw = base_ms * crate::engine::pow2(k);
    if raw <= max_ms { raw } else { max_ms as int }
}

/// `d` is a delay that the learned strategy may choose after `failures`
/// failures: with no tried delay within the maximum, the exploratory delay;
/// otherwise a tried delay within the maximum whose success rate no other
/// such delay beats, raised to at least the base times the failure count.
pub open spec fn is_optimal_delay(h: Seq<DelayOutcomes>, base: u64, max: u64, failures: u32, d: int) -> bool {
    &&& (forall|i: int| 0 <= i < h.len() ==> #[trigger] h[i].delay_ms > max)
        ==> d == exploratory_delay(base, max, failures)
    &&& (exists|i: int| 0 <= i < h.len() && #[trigger] h[i].delay_ms <= max)
        ==> exists|b: int| {
            &&& 0 <= b < h.len()
            &&& h[b].delay_ms <= max
            &&& forall|j: int| 0 <= j < h.len() && #[trigger] h[j].delay_ms <= max
                ==> !rate_below(h[b].successes, h[b].attempts, h[j].successes, h[j].attempts)
            &&& d == (if h[b].delay_ms >= base * failures { h[b].delay_ms as int } else { base * failures })
        }
}

/// Backoff that learns which delays were followed by success.
#[derive(Debug)]
pub struct AIBackoffStrategy {
    history: Vec<DelayOutcomes>,
    base_delay_ms: u64,
    max_delay_ms: u64,
}

fn inc_wrapping(x: u32) -> (r: u32)
    ensures
        r == wrap_inc(x),
{
    if x == u32::MAX { 0 } else { x + 1 }
}

fn is_below(s1: u32, t1: u32, s2: u32, t2: u32) -> (r: bool)
    ensures
        r == rate_below(s1, t1, s2, t2),
{
    if t1 == 0 {
        t2 > 0 && s2 > 0
    } else if t2 == 0 {
        false
    } else {
        let a: u64 = s1 as u64;
        let b: u64 = t2 as u64;
        let c: u64 = s2 as u64;
        let d: u64 = t1 as u64;
        assert(a * b <= 0xffff_fffe_0000_0001u64) by (nonlinear_arith)
            requires a <= 0xffff_ffffu64, b <= 0xffff_ffffu64;
        assert(c * d <= 0xffff_fffe_0000_0001u64) by (nonlinear_arith)
            requires c <= 0xffff_ffffu64, d <= 0xffff_ffffu64;
        a * b < c * d
    }
}

impl AIBackoffStrategy {
    pub closed spec fn history_spec(&self) -> Seq<DelayOutcomes> {
        self.history@
    }

    pub closed spec fn base_spec(&self) -> u64 {
        self.base_delay_ms
    }

    pub closed spec fn max_spec(&self) -> u64 {
        self.max_delay_ms
    }

    /// No delay is recorded twice.
    pub closed spec fn wf(&self) -> bool {
        distinct_delays(self.history@)
    }

    /// A strategy with no history.
    pub fn new(base_delay_ms: u64, max_delay_ms: u64) -> (s: Self)
        ensures
            s.wf(),
            s.history_spec() == Seq::<DelayOutcomes>::empty(),
            s.base_spec() == base_delay_ms,
            s.max_spec() == max_delay_ms,
    {
        AIBackoffStrategy { history: Vec::new(), base_delay_ms, max_delay_ms }
    }

    /// The delay to wait after `failure_count` failures. Among the delays
    /// tried that do not exceed the maximum, one with the best success rate
    /// is taken (the last such in the history), but never less than the
    /// base times the failure count; with none tried, the exploratory delay.
    pub fn calculate_optimal_delay(&self, failure_count: u32) -> (d: u64)
        requires
            (exists|i: int| 0 <= i < self.history_spec().len() && #[trigger] self.history_spec()[i].delay_ms
                <= self.max_spec()) ==> self.base_spec() * failure_count <= u64::MAX,
            (forall|i: int| 0 <= i < self.history_spec().len() ==> #[trigger] self.history_spec()[i].delay_ms
                > self.max_spec()) ==> self.base_spec() * crate::engine::pow2(
                if failure_count < 10 { failure_count as nat } else { 10 },
            ) <= u64::MAX,
        ensures
            is_optimal_delay(self.history_spec(), self.base_spec(), self.max_spec(), failure_count, d as int),
    {
        let n = self.history.len();
        let mut best: Option<usize> = None;
        let mut i: usize = 0;
        while i < n
            invariant
                i <= n,
                n == self.history@.len(),
                best matches Some(b) ==> b < i && self.history@[b as int].delay_ms <= self.max_delay_ms
                    && forall|j: int| 0 <= j < i && #[trigger] self.history@[j].delay_ms <= self.max_delay_ms
                        ==> !rate_below(self.history@[b as int].successes, self.history@[b as int].attempts,
                            self.history@[j].successes, self.history@[j].attempts),
                best is None ==> forall|j: int| 0 <= j < i ==> #[trigger] self.history@[j].delay_ms > self.max_delay_ms,
            decreases n - i,
        {
            let e = self.history[i];
            if e.delay_ms <= self.max_delay_ms {
                match best {
                    None => {
                        best = Some(i);
                    },
                    Some(b) => {
                        let cur = self.history[b];
                        if !is_below(e.successes, e.attempts, cur.successes, cur.attempts) {
                            proof {
                                assert forall|j: int| 0 <= j < i + 1 && #[trigger] self.history@[j].delay_ms <= self.max_delay_ms
                                    implies !rate_below(e.successes, e.attempts, self.history@[j].successes, self.history@[j].attempts) by {
                                    if j < i {
                                        let c = self.history@[j];
                                        assert(!rate_below(cur.successes, cur.attempts, c.successes, c.attempts));
                                        assert(!rate_below(e.successes, e.attempts, cur.successes, cur.attempts));
                                        lemma_rate_below_total(e.successes, e.attempts, cur.successes, cur.attempts, c.successes, c.attempts);
                                    }
                                }
                            }
                            best = Some(i);
                        } else {
                            proof {
                                assert(rate_below(e.successes, e.attempts, cur.successes, cur.attempts));
                                lemma_rate_below_asym(e.successes, e.attempts, cur.successes, cur.attempts);
                            }
                        }
                    },
                }
            }
            i = i + 1;
        }
        match best {
            Some(b) => {
                let chosen = self.history[b].delay_ms;
                proof {
                    assert(self.history_spec()[b as int].delay_ms <= self.max_spec());
                }
                let floor = self.base_delay_ms * (failure_count as u64);
                if chosen >= floor { chosen } else { floor }
            },
            None => {
                let k: u32 = if failure_count < 10 { failure_count } else { 10 };
                let mut p: u64 = 1;
                let mut j: u32 = 0;
                while j < k
                    invariant
                        j <= k,
                        k <= 10,
                        p as nat == crate::engine::pow2(j as nat),
                        p <= 1024,
                    decreases k - j,
                {
                    proof { lemma_pow2_le_1024(j as nat + 1); }
                    p = p * 2;
                    j = j + 1;
                }
                assert(self.base_delay_ms * p <= u64::MAX);
                let raw = self.base_delay_ms * p;
                if raw <= self.max_delay_ms { raw } else { self.max_delay_ms }
            },
        }
    }

    /// Records the outcome of a retry after `delay_ms`; when more than 100
    /// delays are known, those tried five times or fewer are forgotten.
    pub fn record_outcome(&mut self, delay_ms: u64, success: bool)
        requires
            old(self).wf(),
        ensures
            final(self).wf(),
            final(self).history_spec() == pruned(with_outcome(old(self).history_spec(), delay_ms, success)),
            final(self).base_spec() == old(self).base_spec(),
            final(self).max_spec() == old(self).max_spec(),
    {
        let n = self.history.len();
        let mut i: usize = 0;
        while i < n
            invariant
                i <= n,
                n == self.history@.len(),
                forall|j: int| 0 <= j < i ==> #[trigger] self.history@[j].delay_ms != delay_ms,
            ensures
                i <= n,
                i < n ==> self.history@[i as int].delay_ms == delay_ms,
                forall|j: int| 0 <= j < i ==> #[trigger] self.history@[j].delay_ms != delay_ms,
            decreases n - i,
        {
            if self.history[i].delay_ms == delay_ms {
                break;
            }
            i = i + 1;
        }
        let ghost h0 = self.history@;
        if i < n {
            let e = self.history[i];
            let updated = DelayOutcomes {
                delay_ms: e.delay_ms,
                successes: if success { inc_wrapping(e.successes) } else { e.successes },
                attempts: inc_wrapping(e.attempts),
            };
            self.history.set(i, updated);
            proof {
                assert(exists|k: int| 0 <= k < h0.len() && h0[k].delay_ms == delay_ms) by {
                    assert(h0[i as int].delay_ms == delay_ms);
                }
                let c = choose|k: int| 0 <= k < h0.len() && h0[k].delay_ms == delay_ms;
                assert(c == i as int) by {
                    if c != i as int {
                        assert(h0[c].delay_ms == h0[i as int].delay_ms);
                    }
                }
                assert(self.history@ == with_outcome(h0, delay_ms, success));
                assert(distinct_delays(self.history@)) by {
                    assert forall|a: int, b: int| 0 <= a < b < self.history@.len()
                        implies #[trigger] self.history@[a].delay_ms != #[trigger] self.history@[b].delay_ms by {
                        assert(self.history@[a].delay_ms == h0[a].delay_ms);
                        assert(self.history@[b].delay_ms == h0[b].delay_ms);
                    }
                }
            }
        } else {
            let fresh = DelayOutcomes {
                delay_ms,
                successes: if success { 1 } else { 0 },
                attempts: 1,
            };
            self.history.push(fresh);
            proof {
                assert(!(exists|k: int| 0 <= k < h0.len() && h0[k].delay_ms == delay_ms));
                assert(self.history@ == with_outcome(h0, delay_ms, success));
            }
        }
        let ghost h1 = self.history@;
        if self.history.len() > 100 {
            let mut kept: Vec<DelayOutcomes> = Vec::new();
            let m = self.history.len();
            let mut k: usize = 0;
            while k < m
                invariant
                    k <= m,
                    m == h1.len(),
                    self.history@ == h1,
                    kept@ == h1.take(k as int).filter(|e: DelayOutcomes| e.attempts > 5),
                decreases m - k,
            {
                let e = self.history[k];
                proof {
                    assert(h1.take(k + 1).drop_last() =~= h1.take(k as int));
                    reveal(Seq::filter);
                }
                if e.attempts > 5 {
                    kept.push(e);
                }
                k = k + 1;
            }
            proof {
                assert(h1.take(m as int) =~= h1);
                lemma_filter_keeps_distinct(h1);
            }
            self.history = kept;
        }
    }
}

proof fn lemma_pow2_le_1024(k: nat)
    requires
        k <= 10,
    ensures
        crate::engine::pow2(k) <= 1024,
        crate::engine::pow2(k) >= 1,
{
    reveal_with_fuel(crate::engine::pow2, 11);
    crate::engine::lemma_pow2_bound(k, 10);
    assert(crate::engine::pow2(10) == 1024);
}

proof fn lemma_rate_below_asym(s1: u32, t1: u32, s2: u32, t2: u32)
    requires
        rate_below(s1, t1, s2, t2),
    ensures
        !rate_below(s2, t2, s1, t1),
{
}

proof fn lemma_rate_below_total(s1: u32, t1: u32, s2: u32, t2: u32, s3: u32, t3: u32)
    requires
        !rate_below(s1, t1, s2, t2),
        !rate_below(s2, t2, s3, t3),
    ensures
        !rate_below(s1, t1, s3, t3),
{
    if t3 > 0 {
        if t1 > 0 && t2 > 0 {
            assert(s1 * t3 >= s3 * t1) by (nonlinear_arith)
                requires
                    s1 * t2 >= s2 * t1,
                    s2 * t3 >= s3 * t2,
                    t1 > 0,
                    t2 > 0,
                    t3 > 0,
                    s1 >= 0,
                    s2 >= 0,
                    s3 >= 0,
            ;
        } else if t2 == 0 {
            assert(s3 == 0);
            if t1 > 0 {
                assert(s1 * t3 >= s3 * t1) by (nonlinear_arith)
                    requires
                        s3 == 0,
                        s1 >= 0,
                        t3 > 0,
                ;
            }
        } else {
            assert(t1 == 0 && t2 > 0);
            assert(s2 == 0);
            assert(s3 == 0) by (nonlinear_arith)
                requires
                    s2 == 0,
                    s2 * t3 >= s3 * t2,
                    t2 > 0,
                    s3 >= 0,
            ;
        }
    }
}

proof fn lemma_filter_keeps_distinct(h: Seq<DelayOutcomes>)
    requires
        distinct_delays(h),
    ensures
        distinct_delays(h.filter(|e: DelayOutcomes| e.attempts > 5)),
    decreases h.len(),
{
    reveal(Seq::filter);
    let f = |e: DelayOutcomes| e.attempts > 5;
    if h.len() > 0 {
        let h0 = h.drop_last();
        assert(distinct_delays(h0));
        lemma_filter_keeps_distinct(h0);
        let fh0 = h0.filter(f);
        if f(h.last()) {
            assert(h.filter(f) == fh0.push(h.last()));
            assert forall|k: int| 0 <= k < fh0.len() implies #[trigger] fh0[k].delay_ms != h.last().delay_ms by {
                assert(fh0.contains(fh0[k]));
                h0.lemma_filter_contains_rev(f, fh0[k]);
                assert(h0.contains(fh0[k]));
                let q = choose|q: int| 0 <= q < h0.len() && h0[q] == fh0[k];
                assert(h[q] == h0[q]);
            }
        } else {
            assert(h.filter(f) == fh0);
        }
    }
}

} // verus!

verus! {

/// The exponential delay after `failures` consecutive failures: 100 ms
/// doubled per failure after the first, capped at 10 s.
pub open spec fn exponential_delay_ms(failures: u32) -> int {
    let raw: int = (100 * crate::engine::pow2((failures - 1) as nat)) as int;
    if raw <= 10_000 { raw } else { 10_000 }
}

/// The engine's backoff after failed buys: consecutive failures, when the
/// last one happened, and the learned strategy.
#[derive(Debug)]
pub struct BackoffState {
    consecutive_failures: u32,
    last_failure: Option<std::time::Instant>,
    ai_strategy: AIBackoffStrategy,
}

impl BackoffState {
    pub closed spec fn failures_spec(&self) -> u32 {
        self.consecutive_failures
    }

    pub closed spec fn strategy_spec(&self) -> AIBackoffStrategy {
        self.ai_strategy
    }

    /// The learned strategy works between 100 ms and 10 s.
    pub closed spec fn wf(&self) -> bool {
        &&& self.ai_strategy.wf()
        &&& self.ai_strategy.base_spec() == 100
        &&& self.ai_strategy.max_spec() == 10_000
    }

    /// No failures yet.
    pub fn new() -> (s: Self)
        ensures
            s.wf(),
            s.failures_spec() == 0,
            s.strategy_spec().history_spec() == Seq::<DelayOutcomes>::empty(),
    {
        BackoffState { consecutive_failures: 0, last_failure: None, ai_strategy: AIBackoffStrategy::new(100, 10_000) }
    }

    /// Counts a failure (the counter wraps).
    pub fn record_failure(&mut self)
        requires
            old(self).wf(),
        ensures
            final(self).wf(),
            final(self).failures_spec() == wrap_inc(old(self).failures_spec()),
            final(self).strategy_spec() == old(self).strategy_spec(),
    {
        self.consecutive_failures = inc_wrapping(self.consecutive_failures);
        self.last_failure = Some(crate::clock::instant_now());
    }

    /// A success ends the run of failures.
    pub fn record_success(&mut self)
        requires
            old(self).wf(),
        ensures
            final(self).wf(),
            final(self).failures_spec() == 0,
            final(self).strategy_spec() == old(self).strategy_spec(),
    {
        self.consecutive_failures = 0;
        self.last_failure = None;
    }

    /// How long to wait before the next buy: nothing after no failure;
    /// otherwise the longer of the learned delay and the exponential one.
    pub fn should_backoff(&self) -> (d: Option<u64>)
        requires
            self.wf(),
        ensures
            self.failures_spec() == 0 <==> d is None,
            d matches Some(ms) ==> exists|a: int| {
                &&& is_optimal_delay(self.strategy_spec().history_spec(), 100, 10_000, self.failures_spec(), a)
                &&& ms == (if a >= exponential_delay_ms(self.failures_spec()) {
                    a
                } else {
                    exponential_delay_ms(self.failures_spec())
                })
            },
    {
        let failures = self.consecutive_failures;
        if failures == 0 {
            return None;
        }
        assert(100 * failures <= u64::MAX);
        proof {
            let k: nat = if failures < 10 { failures as nat } else { 10 };
            lemma_pow2_le_1024(k);
            assert(100 * crate::engine::pow2(k) <= 102400) by (nonlinear_arith)
                requires
                    crate::engine::pow2(k) <= 1024,
            ;
        }
        let ai = self.ai_strategy.calculate_optimal_delay(failures);
        let mut raw: u64 = 100;
        let mut k: u32 = 0;
        let target: u32 = failures - 1;
        while k < target && raw <= 10_000
            invariant
                k <= target,
                target == failures - 1,
                raw as nat == 100 * crate::engine::pow2(k as nat),
                raw <= 20_000,
            decreases target - k,
        {
            raw = raw * 2;
            k = k + 1;
        }
        proof {
            if raw > 10_000 && k < target {
                crate::engine::lemma_pow2_bound(k as nat, target as nat);
            }
        }
        let exp: u64 = if raw <= 10_000 { raw } else { 10_000 };
        proof {
            if k < target {
                crate::engine::lemma_pow2_bound(k as nat, target as nat);
                assert(100 * crate::engine::pow2(k as nat) <= 100 * crate::engine::pow2(target as nat));
                assert(exp == exponential_delay_ms(failures));
            } else {
                assert(k == target);
                assert(exp == exponential_delay_ms(failures));
            }
            assert(is_optimal_delay(self.strategy_spec().history_spec(), 100, 10_000, self.failures_spec(), ai as int));
        }
        let r: u64 = if ai >= exp { ai } else { exp };
        proof {
            assert(r == (if ai as int >= exponential_delay_ms(self.failures_spec()) {
                ai as int
            } else {
                exponential_delay_ms(self.failures_spec())
            }));
        }
        Some(r)
    }

    /// Records the outcome of a retry after `delay_ms` in the learned
    /// strategy.
    pub fn record_backoff_outcome(&mut self, delay_ms: u64, success: bool)
        requires
            old(self).wf(),
        ensures
            final(self).wf(),
            final(self).failures_spec() == old(self).failures_spec(),
            final(self).strategy_spec().history_spec()
                == pruned(with_outcome(old(self).strategy_spec().history_spec(), delay_ms, success)),
    {
        self.ai_strategy.record_outcome(delay_ms, success);
    }

    /// The number of consecutive failures.
    pub fn get_failure_count(&self) -> (n: u32)
        ensures
            n == self.failures_spec(),
    {
        self.consecutive_failures
    }
}

} // verus!

verus! {

// ---------------------------------------------------------------------------
// Transaction queue
// ---------------------------------------------------------------------------

/// A signed transaction waiting to be sent, with its candidate and
/// bookkeeping; times are microseconds on the caller's monotonic clock.
pub struct QueuedTransaction<T> {
    pub tx: T,
    pub candidate: crate::sniffer::extractor::PremintCandidate,
    pub created_at_us: u128,
    pub blockhash_fetch_us: Option<u128>,
    pub attempts: u32,
    pub correlation_id: String,
}

/// The age of an item created at `created_us`, seen at `now_us` (zero for a
/// creation time after `now_us`).
pub open spec fn age_us(now_us: u128, created_us: u128) -> int {
    if now_us >= created_us { now_us - created_us } else { 0 }
}

/// The items still fresh at `now_us`: those younger than `max_age_us`, in
/// order.
pub open spec fn fresh_items<T>(q: Seq<QueuedTransaction<T>>, now_us: u128, max_age_us: u128) -> Seq<QueuedTransaction<T>> {
    q.filter(|it: QueuedTransaction<T>| age_us(now_us, it.created_at_us) < max_age_us)
}

/// A bounded first-in first-out queue of transactions.
pub struct TransactionQueue<T> {
    queue: std::collections::VecDeque<QueuedTransaction<T>>,
    max_size: usize,
}

/// The queue refused an item because it was full.
#[derive(Debug, Clone, Copy, PartialEq, Eq, Structural)]
pub struct QueueFull;

impl<T> TransactionQueue<T> {
    pub closed spec fn items(&self) -> Seq<QueuedTransaction<T>> {
        self.queue@
    }

    pub closed spec fn max_spec(&self) -> nat {
        self.max_size as nat
    }

    /// The queue holds no more than its maximum.
    pub closed spec fn wf(&self) -> bool {
        self.queue@.len() <= self.max_size
    }

    /// An empty queue of at most `max_size` transactions.
    pub fn new(max_size: usize) -> (q: Self)
        ensures
            q.wf(),
            q.items() == Seq::<QueuedTransaction<T>>::empty(),
            q.max_spec() == max_size,
    {
        TransactionQueue { queue: std::collections::VecDeque::new(), max_size }
    }

    /// Appends `item`, unless the queue is full.
    pub fn push(&mut self, item: QueuedTransaction<T>) -> (r: Result<(), QueueFull>)
        requires
            old(self).wf(),
        ensures
            final(self).wf(),
            final(self).max_spec() == old(self).max_spec(),
            old(self).items().len() >= old(self).max_spec() <==> r is Err,
            r is Err ==> final(self).items() == old(self).items(),
            r is Ok ==> final(self).items() == old(self).items().push(item),
    {
        if self.queue.len() >= self.max_size {
            return Err(QueueFull);
        }
        self.queue.push_back(item);
        Ok(())
    }

    /// Takes the oldest transaction out, if any.
    pub fn pop(&mut self) -> (r: Option<QueuedTransaction<T>>)
        requires
            old(self).wf(),
        ensures
            final(self).wf(),
            final(self).max_spec() == old(self).max_spec(),
            old(self).items().len() == 0 ==> r is None && final(self).items() == old(self).items(),
            old(self).items().len() > 0 ==> r == Some(old(self).items()[0])
                && final(self).items() == old(self).items().drop_first(),
    {
        self.queue.pop_front()
    }

    /// The number of queued transactions.
    pub fn len(&self) -> (n: usize)
        ensures
            n == self.items().len(),
    {
        self.queue.len()
    }

    /// Drops the transactions at least `max_age_us` old at `now_us`,
    /// keeping the others in order; returns how many were dropped.
    pub fn clear_stale(&mut self, now_us: u128, max_age_us: u128) -> (removed: usize)
        requires
            old(self).wf(),
        ensures
            final(self).wf(),
            final(self).max_spec() == old(self).max_spec(),
            final(self).items() == fresh_items(old(self).items(), now_us, max_age_us),
            removed == old(self).items().len() - final(self).items().len(),
    {
        let ghost q0 = self.queue@;
        let n = self.queue.len();
        let mut kept: std::collections::VecDeque<QueuedTransaction<T>> = std::collections::VecDeque::new();
        let mut i: usize = 0;
        while i < n
            invariant
                i <= n,
                n == q0.len(),
                self.queue@ == q0.skip(i as int),
                self.max_size == old(self).max_size,
                kept@ == fresh_items(q0.take(i as int), now_us, max_age_us),
                kept@.len() <= i,
            decreases n - i,
        {
            proof {
                assert(self.queue@.len() > 0);
            }
            let it = match self.queue.pop_front() {
                Some(x) => x,
                None => {
                    proof { assert(false); }
                    return 0;
                },
            };
            proof {
                assert(q0.skip(i as int).drop_first() =~= q0.skip(i + 1));
                assert(q0.take(i + 1).drop_last() =~= q0.take(i as int));
                assert(q0.take(i + 1).last() == it);
                reveal(Seq::filter);
            }
            let age: u128 = if now_us >= it.created_at_us { now_us - it.created_at_us } else { 0 };
            if age < max_age_us {
                kept.push_back(it);
            }
            i = i + 1;
        }
        proof {
            assert(q0.take(n as int) =~= q0);
        }
        let removed = n - kept.len();
        self.queue = kept;
        removed
    }
}

// ---------------------------------------------------------------------------
// Jito submission order and tips
// ---------------------------------------------------------------------------

/// The endpoints in the order they are tried: by ascending priority, and
/// in their configured order within one priority.
pub open spec fn by_priority(eps: Seq<JitoEndpoint>) -> Seq<JitoEndpoint> {
    by_priority_from(eps, 0)
}

/// The endpoints of priority `p` and above, by ascending priority.
pub open spec fn by_priority_from(eps: Seq<JitoEndpoint>, p: int) -> Seq<JitoEndpoint>
    decreases 256 - p,
{
    if p >= 256 || p < 0 {
        Seq::empty()
    } else {
        eps.filter(|e: JitoEndpoint| e.priority == p) + by_priority_from(eps, p + 1)
    }
}

impl Clone for JitoEndpoint {
    fn clone(&self) -> (c: Self)
        ensures
            c == *self,
    {
        JitoEndpoint { region: self.region.clone(), url: self.url.clone(), priority: self.priority }
    }
}

/// The endpoints in submission order (a stable sort by priority).
pub fn endpoints_by_priority(eps: &Vec<JitoEndpoint>) -> (r: Vec<JitoEndpoint>)
    ensures
        r@ == by_priority(eps@),
{
    let n = eps.len();
    let mut out: Vec<JitoEndpoint> = Vec::new();
    let mut p: u32 = 0;
    while p < 256
        invariant
            p <= 256,
            n == eps@.len(),
            out@ + by_priority_from(eps@, p as int) == by_priority(eps@),
        decreases 256 - p,
    {
        let ghost before = out@;
        let mut i: usize = 0;
        while i < n
            invariant
                i <= n,
                p < 256,
                n == eps@.len(),
                out@ == before + eps@.take(i as int).filter(|e: JitoEndpoint| e.priority == p),
            decreases n - i,
        {
            proof {
                assert(eps@.take(i + 1).drop_last() =~= eps@.take(i as int));
                reveal(Seq::filter);
            }
            if eps[i].priority as u32 == p {
                out.push(eps[i].clone());
            }
            i = i + 1;
        }
        proof {
            assert(eps@.take(n as int) =~= eps@);
            assert(by_priority_from(eps@, p as int)
                == eps@.filter(|e: JitoEndpoint| e.priority == p) + by_priority_from(eps@, p + 1));
            assert(out@ + by_priority_from(eps@, p + 1) =~= before + by_priority_from(eps@, p as int));
        }
        p = p + 1;
    }
    proof {
        assert(by_priority_from(eps@, 256) == Seq::<JitoEndpoint>::empty());
        assert(out@ + Seq::<JitoEndpoint>::empty() =~= out@);
    }
    out
}

/// The median of the recent fees: the fee of rank `len / 2`; none when no
/// fee was seen.
pub fn median_fee(recent: &[u64]) -> (r: Option<u64>)
    ensures
        recent@.len() == 0 ==> r is None,
        recent@.len() > 0 ==> r == Some(sorted_samples(recent@)[(recent@.len() / 2) as int]),
{
    sample_at_rank(recent, recent.len() / 2)
}

/// A tip brought into `[base, max]`.
pub fn clamp_tip(tip: u64, base_tip_lamports: u64, max_tip_lamports: u64) -> (r: u64)
    requires
        base_tip_lamports <= max_tip_lamports,
    ensures
        r == (if tip < base_tip_lamports {
            base_tip_lamports
        } else if tip > max_tip_lamports {
            max_tip_lamports
        } else {
            tip
        }),
{
    if tip < base_tip_lamports {
        base_tip_lamports
    } else if tip > max_tip_lamports {
        max_tip_lamports
    } else {
        tip
    }
}

/// The recent fees after recording `fee`: the newest 100 are kept.
pub fn record_recent_fee(fees: &mut SampleHistory<u64>, fee_lamports: u64)
    requires
        old(fees).wf(),
        old(fees).cap_spec() == 100,
    ensures
        final(fees).wf(),
        final(fees).cap_spec() == 100,
        final(fees).view_seq() == bounded_push(old(fees).view_seq(), fee_lamports, 100),
{
    fees.record(fee_lamports);
}

} // verus!

verus! {

// ---------------------------------------------------------------------------
// Security validators
// ---------------------------------------------------------------------------

/// Verdicts by key text (signature or candidate id).
pub type VerdictCache = DashMap<String, bool>;

/// The verdicts held by a cache, by key text.
pub uninterp spec fn verdicts(m: VerdictCache) -> Map<Seq<char>, bool>;

/// `DashMap::new`: an empty cache.
#[verifier::external_body]
fn verdict_cache_new() -> (m: VerdictCache)
    ensures
        verdicts(m).is_empty(),
{
    DashMap::new()
}

/// `DashMap::get`: the verdict cached under `key`, if any.
#[verifier::external_body]
fn verdict_cache_get(m: &VerdictCache, key: &str) -> (r: Option<bool>)
    ensures
        r == (if verdicts(*m).contains_key(key@) { Some(verdicts(*m)[key@]) } else { None }),
{
    m.get(key).map(|e| *e.value())
}

/// `DashMap::insert`: caches `v` under `key`.
#[verifier::external_body]
fn verdict_cache_insert(m: &mut VerdictCache, key: String, v: bool)
    ensures
        verdicts(*final(m)) == verdicts(*old(m)).insert(key@, v),
{
    m.insert(key, v);
}

/// `DashMap::clear`: forgets every verdict.
#[verifier::external_body]
fn verdict_cache_clear(m: &mut VerdictCache)
    ensures
        verdicts(*final(m)).is_empty(),
{
    m.clear()
}

/// Every cached verdict is a pass.
pub open spec fn all_pass(m: Map<Seq<char>, bool>) -> bool {
    forall|k: Seq<char>| #[trigger] m.contains_key(k) ==> m[k]
}

/// Batch signature verification with a cache of verdicts. Verification
/// itself accepts every signature for now.
pub struct HardwareAcceleratedValidator {
    batch_size: usize,
    verification_cache: VerdictCache,
}

impl HardwareAcceleratedValidator {
    pub closed spec fn cache(&self) -> Map<Seq<char>, bool> {
        verdicts(self.verification_cache)
    }

    /// Only passes are cached.
    pub closed spec fn wf(&self) -> bool {
        all_pass(verdicts(self.verification_cache))
    }

    /// A validator with an empty cache.
    pub fn new(batch_size: usize) -> (v: Self)
        ensures
            v.wf(),
            v.cache().is_empty(),
    {
        HardwareAcceleratedValidator { batch_size, verification_cache: verdict_cache_new() }
    }

    /// The verdict on each signature, in order; every signature is cached.
    pub fn verify_signatures_batch(&mut self, signatures: &[String]) -> (r: Vec<bool>)
        requires
            old(self).wf(),
        ensures
            final(self).wf(),
            r@ == Seq::new(signatures@.len(), |_i: int| true),
            forall|i: int| 0 <= i < signatures@.len() ==> #[trigger] final(self).cache().contains_key(signatures@[i]@),
            forall|k: Seq<char>| #[trigger] old(self).cache().contains_key(k) ==> final(self).cache().contains_key(k),
    {
        let n = signatures.len();
        let mut results: Vec<bool> = Vec::new();
        let mut i: usize = 0;
        while i < n
            invariant
                i <= n,
                n == signatures@.len(),
                all_pass(verdicts(self.verification_cache)),
                results@ == Seq::new(i as nat, |_i: int| true),
                forall|j: int| 0 <= j < i ==> #[trigger] verdicts(self.verification_cache).contains_key(signatures@[j]@),
                forall|k: Seq<char>| #[trigger] verdicts(old(self).verification_cache).contains_key(k)
                    ==> verdicts(self.verification_cache).contains_key(k),
            decreases n - i,
        {
            let sig = &signatures[i];
            match verdict_cache_get(&self.verification_cache, sig.as_str()) {
                Some(cached) => {
                    results.push(cached);
                },
                None => {
                    let verified = Self::verify_single(sig.as_str());
                    verdict_cache_insert(&mut self.verification_cache, sig.clone(), verified);
                    results.push(verified);
                },
            }
            proof {
                assert(results@ =~= Seq::new((i + 1) as nat, |_i: int| true));
            }
            i = i + 1;
        }
        results
    }

    /// Verification of one signature: every signature passes for now.
    fn verify_single(_signature: &str) -> (r: bool)
        ensures
            r,
    {
        true
    }

    /// Forgets every cached verdict.
    pub fn clear_cache(&mut self)
        ensures
            final(self).wf(),
            final(self).cache().is_empty(),
    {
        verdict_cache_clear(&mut self.verification_cache);
    }
}

/// Proof validation for candidate authenticity, with a cache of verdicts.
/// Every proof is accepted for now.
pub struct ZKProofValidator {
    proof_cache: VerdictCache,
}

impl ZKProofValidator {
    pub closed spec fn cache(&self) -> Map<Seq<char>, bool> {
        verdicts(self.proof_cache)
    }

    /// Only passes are cached.
    pub closed spec fn wf(&self) -> bool {
        all_pass(verdicts(self.proof_cache))
    }

    /// A validator with an empty cache.
    pub fn new() -> (v: Self)
        ensures
            v.wf(),
            v.cache().is_empty(),
    {
        ZKProofValidator { proof_cache: verdict_cache_new() }
    }

    /// Validates the candidate `candidate_id`: the cached verdict if there is
    /// one, else a fresh (passing) verdict that is cached.
    pub fn validate_candidate_zk(&mut self, candidate_id: &str, _proof: &[u8]) -> (r: bool)
        requires
            old(self).wf(),
        ensures
            final(self).wf(),
            r,
            final(self).cache().contains_key(candidate_id@),
            final(self).cache().dom() == old(self).cache().dom().insert(candidate_id@),
    {
        match verdict_cache_get(&self.proof_cache, candidate_id) {
            Some(cached) => {
                proof {
                    assert(self.cache().dom() =~= old(self).cache().dom().insert(candidate_id@));
                }
                cached
            },
            None => {
                let is_valid = true;
                verdict_cache_insert(&mut self.proof_cache, candidate_id.to_string(), is_valid);
                proof {
                    assert(self.cache().dom() =~= old(self).cache().dom().insert(candidate_id@));
                }
                is_valid
            },
        }
    }
}

// ---------------------------------------------------------------------------
// Taint tracking
// ---------------------------------------------------------------------------

/// Inputs from untrusted sources, by source.
pub type TaintMap = DashMap<String, Vec<String>>;

/// The inputs recorded by a taint map, by source text.
pub uninterp spec fn taint_log(m: TaintMap) -> Map<Seq<char>, Seq<Seq<char>>>;

/// `DashMap::new`: an empty map.
#[verifier::external_body]
fn taint_map_new() -> (m: TaintMap)
    ensures
        taint_log(m).is_empty(),
{
    DashMap::new()
}

/// `DashMap::get`: a copy of the inputs recorded under `source`, if any.
#[verifier::external_body]
fn taint_map_get(m: &TaintMap, source: &str) -> (r: Option<Vec<String>>)
    ensures
        match r {
            Some(v) => taint_log(*m).contains_key(source@) && v@.map_values(|s: String| s@) == taint_log(*m)[source@],
            None => !taint_log(*m).contains_key(source@),
        },
{
    m.get(source).map(|e| e.value().clone())
}

/// `DashMap::insert`: stores `inputs` under `source`.
#[verifier::external_body]
fn taint_map_insert(m: &mut TaintMap, source: String, inputs: Vec<String>)
    ensures
        taint_log(*final(m)) == taint_log(*old(m)).insert(source@, inputs@.map_values(|s: String| s@)),
{
    m.insert(source, inputs);
}

/// Runtime taint tracking for input validation.
pub struct TaintTracker {
    tainted_sources: TaintMap,
    allowed_sources: Vec<String>,
}

/// The inputs recorded for `source` (none if it was never tainted).
pub open spec fn inputs_of(m: Map<Seq<char>, Seq<Seq<char>>>, source: Seq<char>) -> Seq<Seq<char>> {
    if m.contains_key(source) { m[source] } else { Seq::empty() }
}

impl TaintTracker {
    pub closed spec fn tainted(&self) -> Map<Seq<char>, Seq<Seq<char>>> {
        taint_log(self.tainted_sources)
    }

    pub closed spec fn allowed(&self) -> Seq<Seq<char>> {
        self.allowed_sources@.map_values(|s: String| s@)
    }

    /// A tracker that trusts `allowed_sources`.
    pub fn new(allowed_sources: Vec<String>) -> (t: Self)
        ensures
            t.tainted().is_empty(),
            t.allowed() == allowed_sources@.map_values(|s: String| s@),
    {
        TaintTracker { tainted_sources: taint_map_new(), allowed_sources }
    }

    fn is_allowed(&self, source: &str) -> (r: bool)
        ensures
            r == self.allowed().contains(source@),
    {
        let n = self.allowed_sources.len();
        let mut i: usize = 0;
        while i < n
            invariant
                i <= n,
                n == self.allowed_sources@.len(),
                forall|j: int| 0 <= j < i ==> self.allowed_sources@[j]@ != source@,
            decreases n - i,
        {
            if crate::strings::str_eq(self.allowed_sources[i].as_str(), source) {
                assert(self.allowed()[i as int] == source@);
                return true;
            }
            i = i + 1;
        }
        proof {
            if self.allowed().contains(source@) {
                let k = choose|k: int| 0 <= k < self.allowed().len() && self.allowed()[k] == source@;
                assert(self.allowed_sources@[k]@ == source@);
            }
        }
        false
    }

    /// Whether an input from `source` is trusted; an untrusted one is
    /// recorded with `data`.
    pub fn track_input(&mut self, source: &str, data: &str) -> (r: bool)
        ensures
            r == old(self).allowed().contains(source@),
            final(self).allowed() == old(self).allowed(),
            r ==> final(self).tainted() == old(self).tainted(),
            !r ==> final(self).tainted() == old(self).tainted().insert(
                source@,
                inputs_of(old(self).tainted(), source@).push(data@),
            ),
    {
        if self.is_allowed(source) {
            return true;
        }
        let mut inputs: Vec<String> = match taint_map_get(&self.tainted_sources, source) {
            Some(v) => v,
            None => Vec::new(),
        };
        let ghost before = inputs@;
        inputs.push(data.to_string());
        proof {
            assert(inputs@.map_values(|s: String| s@) =~= before.map_values(|s: String| s@).push(data@));
            assert(before.map_values(|s: String| s@) =~= inputs_of(old(self).tainted(), source@));
        }
        taint_map_insert(&mut self.tainted_sources, source.to_string(), inputs);
        false
    }

    /// Whether anything from `source` was recorded as tainted.
    pub fn is_tainted(&self, source: &str) -> (r: bool)
        ensures
            r == self.tainted().contains_key(source@),
    {
        taint_map_get(&self.tainted_sources, source).is_some()
    }

    /// The tainted inputs recorded for `source`, if any.
    pub fn get_tainted_inputs(&self, source: &str) -> (r: Option<Vec<String>>)
        ensures
            match r {
                Some(v) => self.tainted().contains_key(source@)
                    && v@.map_values(|s: String| s@) == self.tainted()[source@],
                None => !self.tainted().contains_key(source@),
            },
    {
        taint_map_get(&self.tainted_sources, source)
    }
}

// ---------------------------------------------------------------------------
// Security validation of a candidate
// ---------------------------------------------------------------------------

/// The source name under which candidates reach the engine.
pub open spec fn candidate_source() -> Seq<char> {
    "candidate_stream"@
}

/// Which security check refused a candidate.
#[derive(Debug, Clone, Copy, PartialEq, Eq, Structural)]
pub enum SecurityFailure {
    /// The candidate came from a source that is not trusted
    TaintedInput,
    /// Its proof did not validate
    ZkProofFailed,
    /// Its signature did not verify
    SignatureFailed,
}

/// The counter that a refusal increments.
pub open spec fn security_failure_counter_name(f: SecurityFailure) -> Seq<char> {
    match f {
        SecurityFailure::TaintedInput => "security_tainted_input"@,
        SecurityFailure::ZkProofFailed => "security_zk_failed"@,
        SecurityFailure::SignatureFailed => "security_sig_failed"@,
    }
}

/// The counter that a refusal increments.
pub fn security_failure_counter(f: SecurityFailure) -> (r: &'static str)
    ensures
        r@ == security_failure_counter_name(f),
{
    match f {
        SecurityFailure::TaintedInput => "security_tainted_input",
        SecurityFailure::ZkProofFailed => "security_zk_failed",
        SecurityFailure::SignatureFailed => "security_sig_failed",
    }
}

/// The engine's security validation of a candidate for `mint`, whose text
/// is its base58 form: the taint check of the candidate source, then the
/// proof validation, then the batch signature verification, each refusing
/// the candidate when it fails. Proofs and signatures pass for now, so a
/// candidate passes exactly when its source is trusted; each check that
/// runs leaves its record (the tainted input, the cached verdicts).
pub fn validate_candidate_universe(
    taint: &mut TaintTracker,
    zk: &mut ZKProofValidator,
    hw: &mut HardwareAcceleratedValidator,
    mint: &crate::pubkey::Pubkey,
) -> (r: Result<(), SecurityFailure>)
    requires
        old(zk).wf(),
        old(hw).wf(),
    ensures
        final(zk).wf(),
        final(hw).wf(),
        final(taint).allowed() == old(taint).allowed(),
        r == (if old(taint).allowed().contains(candidate_source()) {
            Ok::<(), SecurityFailure>(())
        } else {
            Err(SecurityFailure::TaintedInput)
        }),
        r is Err ==> final(taint).tainted() == old(taint).tainted().insert(
            candidate_source(),
            inputs_of(old(taint).tainted(), candidate_source()).push(
                crate::encoding::base58_text(mint.bytes@),
            ),
        ),
        r is Err ==> final(zk).cache() == old(zk).cache(),
        r is Err ==> final(hw).cache() == old(hw).cache(),
        r is Ok ==> final(taint).tainted() == old(taint).tainted(),
        r is Ok ==> final(zk).cache().dom() == old(zk).cache().dom().insert(
            crate::encoding::base58_text(mint.bytes@),
        ),
        r is Ok ==> final(hw).cache().contains_key(crate::encoding::base58_text(mint.bytes@)),
        forall|k: Seq<char>| #[trigger] old(hw).cache().contains_key(k) ==> final(hw).cache().contains_key(k),
{
    let text = crate::encoding::bs58_encode(mint.bytes.as_slice());
    proof {
        reveal_strlit("candidate_stream");
    }
    if !taint.track_input("candidate_stream", text.as_str()) {
        return Err(SecurityFailure::TaintedInput);
    }
    let proof_bytes: Vec<u8> = Vec::new();
    if !zk.validate_candidate_zk(text.as_str(), proof_bytes.as_slice()) {
        return Err(SecurityFailure::ZkProofFailed);
    }
    let mut signatures: Vec<String> = Vec::new();
    signatures.push(text.clone());
    let verdicts = hw.verify_signatures_batch(signatures.as_slice());
    let n: usize = verdicts.len();
    let mut i: usize = 0;
    while i < n
        invariant
            i <= n,
            n == verdicts@.len(),
            forall|j: int| 0 <= j < n ==> verdicts@[j],
        decreases n - i,
    {
        if !verdicts[i] {
            return Err(SecurityFailure::SignatureFailed);
        }
        i = i + 1;
    }
    assert(signatures@[0]@ == text@);
    Ok(())
}

// ---------------------------------------------------------------------------
// Cross-chain settings
// ---------------------------------------------------------------------------

/// Chain `i` is the first of `chains` with its chain id.
pub open spec fn first_with_id(chains: Seq<ChainConfig>, i: int) -> bool {
    forall|j: int| 0 <= j < i ==> #[trigger] chains[j].chain_id != chains[i].chain_id
}

/// The status key of a chain.
pub open spec fn chain_status_key(c: ChainConfig) -> Seq<char> {
    "chain_"@ + c.name@
}

/// The value a status list gives `k`: that of its last entry for `k`.
pub open spec fn last_value(es: Seq<(Seq<char>, bool)>, k: Seq<char>) -> bool
    decreases es.len(),
{
    if es.len() == 0 {
        false
    } else if es.last().0 == k {
        es.last().1
    } else {
        last_value(es.drop_last(), k)
    }
}

/// The status entries in the order they are set: bridging first, then each
/// chain by its name.
pub open spec fn status_entries(c: CrossChainConfig) -> Seq<(Seq<char>, bool)> {
    seq![("wormhole_enabled"@, c.wormhole_enabled)] + c.supported_chains@.map_values(
        |ch: ChainConfig| (chain_status_key(ch), ch.enabled),
    )
}

/// The keys of a status list are distinct.
pub open spec fn keys_distinct(r: Seq<(Seq<char>, bool)>) -> bool {
    forall|a: int, b: int| 0 <= a < b < r.len() ==> r[a].0 != r[b].0
}

/// Some entry of `r` has the key `k`.
pub open spec fn has_key(r: Seq<(Seq<char>, bool)>, k: Seq<char>) -> bool {
    exists|j: int| 0 <= j < r.len() && #[trigger] r[j].0 == k
}

/// `r` maps each key set by `es`, once, to the value set last.
pub open spec fn is_status_of(r: Seq<(Seq<char>, bool)>, es: Seq<(Seq<char>, bool)>) -> bool {
    &&& keys_distinct(r)
    &&& forall|k: Seq<char>|
        #![trigger has_key(r, k)]
        #![trigger has_key(es, k)]
        has_key(r, k) == has_key(es, k)
    &&& forall|j: int| 0 <= j < r.len() ==> #[trigger] r[j].1 == last_value(es, r[j].0)
}

/// A status list as contracts see it.
pub open spec fn status_view(r: Seq<(String, bool)>) -> Seq<(Seq<char>, bool)> {
    r.map_values(|e: (String, bool)| (e.0@, e.1))
}

proof fn lemma_status_update(
    before: Seq<(Seq<char>, bool)>,
    es: Seq<(Seq<char>, bool)>,
    j0: int,
    k: Seq<char>,
    v: bool,
)
    requires
        is_status_of(before, es),
        0 <= j0 < before.len(),
        before[j0].0 == k,
    ensures
        is_status_of(before.update(j0, (k, v)), es.push((k, v))),
{
    let after = before.update(j0, (k, v));
    let e1 = es.push((k, v));
    assert(e1.drop_last() =~= es);
    assert forall|a: int, b: int| 0 <= a < b < after.len() implies after[a].0 != after[b].0 by {
        assert(before[a].0 != before[b].0);
    }
    assert forall|q: Seq<char>| has_key(after, q) == has_key(e1, q) by {
        if q == k {
            assert(after[j0].0 == q);
            assert(e1[es.len() as int].0 == q);
        } else {
            if has_key(after, q) {
                let j = choose|j: int| 0 <= j < after.len() && #[trigger] after[j].0 == q;
                assert(before[j].0 == q);
                assert(has_key(before, q));
                let t = choose|t: int| 0 <= t < es.len() && #[trigger] es[t].0 == q;
                assert(e1[t].0 == q);
            }
            if has_key(e1, q) {
                let t = choose|t: int| 0 <= t < e1.len() && #[trigger] e1[t].0 == q;
                assert(es[t].0 == q);
                assert(has_key(es, q));
                let j = choose|j: int| 0 <= j < before.len() && #[trigger] before[j].0 == q;
                assert(after[j].0 == q);
            }
        }
    }
    assert forall|j: int| 0 <= j < after.len() implies #[trigger] after[j].1 == last_value(e1, after[j].0) by {
        if j != j0 {
            assert(before[j].0 != before[j0].0);
        }
    }
}

proof fn lemma_status_push(before: Seq<(Seq<char>, bool)>, es: Seq<(Seq<char>, bool)>, k: Seq<char>, v: bool)
    requires
        is_status_of(before, es),
        !has_key(before, k),
    ensures
        is_status_of(before.push((k, v)), es.push((k, v))),
{
    let after = before.push((k, v));
    let e1 = es.push((k, v));
    assert(e1.drop_last() =~= es);
    assert forall|a: int, b: int| 0 <= a < b < after.len() implies after[a].0 != after[b].0 by {
        if b < before.len() {
            assert(before[a].0 != before[b].0);
        } else {
            assert(before[a].0 != k);
        }
    }
    assert forall|q: Seq<char>| has_key(after, q) == has_key(e1, q) by {
        if q == k {
            assert(after[before.len() as int].0 == q);
            assert(e1[es.len() as int].0 == q);
        } else {
            if has_key(after, q) {
                let j = choose|j: int| 0 <= j < after.len() && #[trigger] after[j].0 == q;
                assert(before[j].0 == q);
                assert(has_key(before, q));
                let t = choose|t: int| 0 <= t < es.len() && #[trigger] es[t].0 == q;
                assert(e1[t].0 == q);
            }
            if has_key(e1, q) {
                let t = choose|t: int| 0 <= t < e1.len() && #[trigger] e1[t].0 == q;
                assert(es[t].0 == q);
                assert(has_key(es, q));
                let j = choose|j: int| 0 <= j < before.len() && #[trigger] before[j].0 == q;
                assert(after[j].0 == q);
            }
        }
    }
    assert forall|j: int| 0 <= j < after.len() implies #[trigger] after[j].1 == last_value(e1, after[j].0) by {
        if j < before.len() {
            assert(before[j].0 != k);
        }
    }
}

/// Sets `key` to `value` in a status list.
fn set_status_tracked(r: &mut Vec<(String, bool)>, key: String, value: bool, Ghost(es): Ghost<Seq<(Seq<char>, bool)>>)
    requires
        is_status_of(status_view(old(r)@), es),
    ensures
        is_status_of(status_view(final(r)@), es.push((key@, value))),
{
    let ghost before = status_view(r@);
    let ghost kv = key@;
    let ghost old_r = r@;
    set_status(r, key, value);
    proof {
        if has_key(before, kv) {
            let j0 = choose|j: int| 0 <= j < before.len() && #[trigger] before[j].0 == kv;
            assert(old_r[j0].0@ == kv);
            lemma_status_update(before, es, j0, kv, value);
            assert(status_view(r@) =~= before.update(j0, (kv, value)));
        } else {
            assert forall|j: int| 0 <= j < old_r.len() implies #[trigger] old_r[j].0@ != kv by {
                assert(before[j].0 == old_r[j].0@);
            }
            lemma_status_push(before, es, kv, value);
            assert(status_view(r@) =~= before.push((kv, value)));
        }
    }
}

/// Sets `key` to `value` in a status list with distinct keys.
fn set_status(r: &mut Vec<(String, bool)>, key: String, value: bool)
    requires
        keys_distinct(old(r)@.map_values(|e: (String, bool)| (e.0@, e.1))),
    ensures
        keys_distinct(final(r)@.map_values(|e: (String, bool)| (e.0@, e.1))),
        forall|j: int| 0 <= j < old(r)@.len() && #[trigger] old(r)@[j].0@ == key@
            ==> final(r)@ == old(r)@.update(j, (key, value)),
        (forall|j: int| 0 <= j < old(r)@.len() ==> #[trigger] old(r)@[j].0@ != key@)
            ==> final(r)@ == old(r)@.push((key, value)),
{
    let ghost before = r@;
    let n: usize = r.len();
    let mut i: usize = 0;
    while i < n
        invariant
            i <= n,
            n == before.len(),
            r@ == before,
            before == old(r)@,
            keys_distinct(before.map_values(|e: (String, bool)| (e.0@, e.1))),
            forall|j: int| 0 <= j < i ==> #[trigger] before[j].0@ != key@,
        decreases n - i,
    {
        if str_eq(r[i].0.as_str(), key.as_str()) {
            let ghost kv = key@;
            assert forall|j: int| 0 <= j < before.len() && #[trigger] before[j].0@ == kv implies j == i by {
                let m = before.map_values(|e: (String, bool)| (e.0@, e.1));
                if j < i {
                    assert(m[j].0 != m[i as int].0);
                } else if j > i {
                    assert(m[i as int].0 != m[j].0);
                }
            }
            r.set(i, (key, value));
            proof {
                let m0 = before.map_values(|e: (String, bool)| (e.0@, e.1));
                let m1 = r@.map_values(|e: (String, bool)| (e.0@, e.1));
                assert forall|a: int, b: int| 0 <= a < b < m1.len() implies m1[a].0 != m1[b].0 by {
                    assert(m1[a].0 == m0[a].0);
                    assert(m1[b].0 == m0[b].0);
                }
            }
            return;
        }
        i = i + 1;
    }
    r.push((key, value));
    proof {
        let m0 = before.map_values(|e: (String, bool)| (e.0@, e.1));
        let m1 = r@.map_values(|e: (String, bool)| (e.0@, e.1));
        assert forall|a: int, b: int| 0 <= a < b < m1.len() implies m1[a].0 != m1[b].0 by {
            if b < n {
                assert(m1[a].0 == m0[a].0);
                assert(m1[b].0 == m0[b].0);
            } else {
                assert(before[a].0@ != key@);
            }
        }
    }
}

impl CrossChainConfig {
    /// Turns bridging on and enables, for each chain id given, the first
    /// chain with that id; ids of no known chain are passed over.
    pub fn enable_cross_chain(&mut self, chain_ids: Vec<u16>)
        ensures
            final(self).wormhole_enabled,
            final(self).bridge_contracts@ == old(self).bridge_contracts@,
            final(self).supported_chains@.len() == old(self).supported_chains@.len(),
            forall|i: int|
                0 <= i < old(self).supported_chains@.len() ==> {
                    let o = #[trigger] old(self).supported_chains@[i];
                    let f = final(self).supported_chains@[i];
                    &&& f.chain_id == o.chain_id
                    &&& f.name@ == o.name@
                    &&& f.rpc_url@ == o.rpc_url@
                    &&& f.enabled == (o.enabled || (chain_ids@.contains(o.chain_id)
                        && first_with_id(old(self).supported_chains@, i)))
                },
    {
        self.wormhole_enabled = true;
        let ghost chains0 = self.supported_chains@;
        let m: usize = chain_ids.len();
        let mut t: usize = 0;
        while t < m
            invariant
                t <= m,
                m == chain_ids@.len(),
                self.wormhole_enabled,
                self.bridge_contracts@ == old(self).bridge_contracts@,
                chains0 == old(self).supported_chains@,
                self.supported_chains@.len() == chains0.len(),
                forall|i: int|
                    0 <= i < chains0.len() ==> {
                        let o = #[trigger] chains0[i];
                        let f = self.supported_chains@[i];
                        &&& f.chain_id == o.chain_id
                        &&& f.name@ == o.name@
                        &&& f.rpc_url@ == o.rpc_url@
                        &&& f.enabled == (o.enabled || (chain_ids@.subrange(0, t as int).contains(
                            o.chain_id,
                        ) && first_with_id(chains0, i)))
                    },
            decreases m - t,
        {
            let id: u16 = chain_ids[t];
            let n: usize = self.supported_chains.len();
            let mut i: usize = 0;
            while i < n
                invariant
                    i <= n,
                    n == chains0.len(),
                    self.supported_chains@.len() == n,
                    forall|j: int| 0 <= j < i ==> #[trigger] self.supported_chains@[j].chain_id != id,
                    forall|j: int| 0 <= j < n ==> #[trigger] self.supported_chains@[j].chain_id == chains0[j].chain_id,
                ensures
                    i <= n,
                    forall|j: int| 0 <= j < i ==> #[trigger] self.supported_chains@[j].chain_id != id,
                    i < n ==> self.supported_chains@[i as int].chain_id == id,
                decreases n - i,
            {
                if self.supported_chains[i].chain_id == id {
                    break;
                }
                i = i + 1;
            }
            let ghost before = self.supported_chains@;
            if i < n {
                let c = &self.supported_chains[i];
                let chain = ChainConfig {
                    chain_id: c.chain_id,
                    name: c.name.clone(),
                    rpc_url: c.rpc_url.clone(),
                    enabled: true,
                };
                self.supported_chains.set(i, chain);
            }
            proof {
                let ids1 = chain_ids@.subrange(0, t + 1);
                assert(ids1 =~= chain_ids@.subrange(0, t as int).push(id));
                assert forall|j: int| 0 <= j < chains0.len() implies {
                    let o = #[trigger] chains0[j];
                    let f = self.supported_chains@[j];
                    &&& f.chain_id == o.chain_id
                    &&& f.name@ == o.name@
                    &&& f.rpc_url@ == o.rpc_url@
                    &&& f.enabled == (o.enabled || (ids1.contains(o.chain_id)
                        && first_with_id(chains0, j)))
                } by {
                    assert(before[j].chain_id == chains0[j].chain_id);
                    if i < n && j == i {
                        assert(ids1[t as int] == id);
                        assert forall|q: int| 0 <= q < j implies #[trigger] chains0[q].chain_id != chains0[j].chain_id by {
                            assert(before[q].chain_id == chains0[q].chain_id);
                        }
                    } else if chains0[j].chain_id == id {
                        if i < n {
                            assert(before[i as int].chain_id == id);
                            assert(chains0[i as int].chain_id == id);
                            if j < i {
                                assert(before[j].chain_id != id);
                            }
                            assert(!first_with_id(chains0, j));
                        } else {
                            assert(before[j].chain_id != id);
                        }
                    } else {
                        assert(ids1.contains(chains0[j].chain_id) == chain_ids@.subrange(0, t as int).contains(chains0[j].chain_id)) by {
                            if ids1.contains(chains0[j].chain_id) {
                                let q = choose|q: int| 0 <= q < ids1.len() && ids1[q] == chains0[j].chain_id;
                                assert(q < t);
                                assert(chain_ids@.subrange(0, t as int)[q] == chains0[j].chain_id);
                            }
                        }
                    }
                }
            }
            t = t + 1;
        }
        assert(chain_ids@.subrange(0, m as int) =~= chain_ids@);
    }

    /// Whether bridging is on, under `wormhole_enabled`, and whether each
    /// chain is enabled, under `chain_` and its name; a key set twice keeps
    /// the value set last.
    pub fn get_cross_chain_status(&self) -> (r: Vec<(String, bool)>)
        ensures
            is_status_of(status_view(r@), status_entries(*self)),
    {
        let ghost es = status_entries(*self);
        let mut r: Vec<(String, bool)> = Vec::new();
        proof {
            assert(status_view(r@) =~= Seq::<(Seq<char>, bool)>::empty());
            assert(es.subrange(0, 0) =~= Seq::<(Seq<char>, bool)>::empty());
        }
        set_status_tracked(
            &mut r,
            String::from_str("wormhole_enabled"),
            self.wormhole_enabled,
            Ghost(es.subrange(0, 0)),
        );
        assert(es.subrange(0, 0).push(("wormhole_enabled"@, self.wormhole_enabled)) =~= es.subrange(0, 1));
        let n: usize = self.supported_chains.len();
        let mut i: usize = 0;
        while i < n
            invariant
                i <= n,
                n == self.supported_chains@.len(),
                es == status_entries(*self),
                is_status_of(status_view(r@), es.subrange(0, i + 1)),
            decreases n - i,
        {
            let chain = &self.supported_chains[i];
            let mut key = String::from_str("chain_");
            push_str(&mut key, chain.name.as_str());
            let ghost kv = key@;
            set_status_tracked(&mut r, key, chain.enabled, Ghost(es.subrange(0, i + 1)));
            assert(es[i + 1] == (kv, chain.enabled));
            assert(es.subrange(0, i + 1).push((kv, chain.enabled)) =~= es.subrange(0, i + 2));
            i = i + 1;
        }
        assert(es.subrange(0, n + 1) =~= es);
        r
    }
}

// ---------------------------------------------------------------------------
// Volume surge analytics
// ---------------------------------------------------------------------------

/// The average of the five volumes `h[from - 5 .. from]`, rounded down.
pub open spec fn avg5(h: Seq<u64>, from: int) -> int {
    (h[from - 1] + h[from - 2] + h[from - 3] + h[from - 4] + h[from - 5]) / 5
}

/// The recent and older average volumes that a surge prediction compares:
/// the last five and the five before them. None with fewer than ten
/// volumes, or when the older average is zero.
pub open spec fn surge_averages(h: Seq<u64>) -> Option<(int, int)> {
    if h.len() < 10 {
        None
    } else if avg5(h, h.len() - 5) == 0 {
        None
    } else {
        Some((avg5(h, h.len() as int), avg5(h, h.len() - 5)))
    }
}

fn average_of_five(h: &Vec<u64>, from: usize) -> (r: u64)
    requires
        5 <= from <= h@.len(),
    ensures
        r == avg5(h@, from as int),
{
    let s: u128 = h[from - 1] as u128 + h[from - 2] as u128 + h[from - 3] as u128 + h[from - 4] as u128
        + h[from - 5] as u128;
    (s / 5) as u64
}


/// How many of the oldest samples have fallen out of a window of
/// `window_ns` nanoseconds, given the samples' ages oldest first: those
/// older than the window, up to the first that is not.
pub open spec fn stale_count(ages_ns: Seq<u128>, window_ns: u128) -> nat
    decreases ages_ns.len(),
{
    if ages_ns.len() > 0 && ages_ns[0] > window_ns {
        1 + stale_count(ages_ns.drop_first(), window_ns)
    } else {
        0
    }
}

proof fn lemma_stale_count_bounded(ages_ns: Seq<u128>, window_ns: u128)
    ensures
        stale_count(ages_ns, window_ns) <= ages_ns.len(),
    decreases ages_ns.len(),
{
    if ages_ns.len() > 0 && ages_ns[0] > window_ns {
        lemma_stale_count_bounded(ages_ns.drop_first(), window_ns);
    }
}

/// The number of stale samples: the leading ages above the window.
pub fn count_stale(ages_ns: &Vec<u128>, window_ns: u128) -> (k: usize)
    ensures
        k == stale_count(ages_ns@, window_ns),
        k <= ages_ns@.len(),
{
    let n = ages_ns.len();
    let mut k: usize = 0;
    proof {
        lemma_stale_count_bounded(ages_ns@, window_ns);
        assert(ages_ns@.skip(0) =~= ages_ns@);
    }
    while k < n && ages_ns[k] > window_ns
        invariant
            k <= n,
            n == ages_ns@.len(),
            stale_count(ages_ns@, window_ns) == k + stale_count(ages_ns@.skip(k as int), window_ns),
        decreases n - k,
    {
        let ghost t = ages_ns@.skip(k as int);
        assert(t[0] == ages_ns@[k as int]);
        assert(t.drop_first() =~= ages_ns@.skip(k + 1));
        k = k + 1;
    }
    proof {
        let t = ages_ns@.skip(k as int);
        if k < n {
            assert(t[0] == ages_ns@[k as int]);
        }
    }
    k
}

/// Volume history for surge prediction over a sliding time window.
pub struct PredictiveAnalytics {
    times: std::collections::VecDeque<Instant>,
    volumes: Vec<u64>,
    window_size: core::time::Duration,
    prediction_confidence: u8,
}

impl PredictiveAnalytics {
    pub closed spec fn volumes_spec(&self) -> Seq<u64> {
        self.volumes@
    }

    pub closed spec fn confidence_spec(&self) -> u8 {
        self.prediction_confidence
    }

    /// One time per volume.
    pub closed spec fn wf(&self) -> bool {
        self.times@.len() == self.volumes@.len()
    }

    /// An empty history over a window of `window_size`.
    pub fn new(window_size: core::time::Duration) -> (a: Self)
        ensures
            a.wf(),
            a.volumes_spec() == Seq::<u64>::empty(),
            a.confidence_spec() == 0,
    {
        PredictiveAnalytics {
            times: std::collections::VecDeque::new(),
            volumes: Vec::new(),
            window_size,
            prediction_confidence: 0,
        }
    }

    /// Records `volume`, seen at `now`, after forgetting the oldest volumes
    /// that fell out of a window of `window_ns` nanoseconds, given the
    /// volumes' ages (oldest first).
    pub fn record_volume_at(&mut self, ages_ns: &Vec<u128>, window_ns: u128, volume: u64, now: Instant)
        requires
            old(self).wf(),
            ages_ns@.len() == old(self).volumes_spec().len(),
        ensures
            final(self).wf(),
            final(self).confidence_spec() == old(self).confidence_spec(),
            final(self).volumes_spec() == old(self).volumes_spec().skip(stale_count(ages_ns@, window_ns) as int).push(volume),
    {
        let ghost v0 = self.volumes@;
        let dropped = count_stale(ages_ns, window_ns);
        let mut j: usize = 0;
        while j < dropped
            invariant
                j <= dropped,
                dropped <= v0.len(),
                self.times@.len() + j == v0.len(),
                self.volumes@ == v0,
                self.prediction_confidence == old(self).prediction_confidence,
            decreases dropped - j,
        {
            let _ = self.times.pop_front();
            j = j + 1;
        }
        let n = self.volumes.len();
        let mut kept: Vec<u64> = Vec::new();
        let mut i: usize = dropped;
        while i < n
            invariant
                dropped <= i <= n,
                n == v0.len(),
                self.volumes@ == v0,
                kept@ == v0.subrange(dropped as int, i as int),
            decreases n - i,
        {
            kept.push(self.volumes[i]);
            proof {
                assert(kept@ =~= v0.subrange(dropped as int, i + 1));
            }
            i = i + 1;
        }
        kept.push(volume);
        self.volumes = kept;
        self.times.push_back(now);
        proof {
            assert(v0.subrange(dropped as int, n as int) =~= v0.skip(dropped as int));
        }
    }

    /// Records a volume now: the ages of the held volumes and the window's
    /// length are read from the clock, and `record_volume_at` decides what
    /// is forgotten.
    pub fn record_volume(&mut self, volume: u64)
        requires
            old(self).wf(),
        ensures
            final(self).wf(),
            final(self).confidence_spec() == old(self).confidence_spec(),
            exists|ages: Seq<u128>, w: u128| ages.len() == old(self).volumes_spec().len()
                && final(self).volumes_spec() == #[trigger] old(self).volumes_spec().skip(stale_count(ages, w) as int).push(volume),
    {
        let n = self.times.len();
        let mut ages: Vec<u128> = Vec::new();
        let mut i: usize = 0;
        while i < n
            invariant
                i <= n,
                n == self.times@.len(),
                ages@.len() == i,
            decreases n - i,
        {
            ages.push(crate::clock::elapsed_nanos(&self.times[i]));
            i = i + 1;
        }
        let window = crate::clock::duration_nanos(&self.window_size);
        let now = crate::clock::instant_now();
        self.record_volume_at(&ages, window, volume, now);
    }

    /// The recent and older average volumes, when a prediction can be made.
    pub fn surge_averages(&self) -> (r: Option<(u64, u64)>)
        ensures
            match surge_averages(self.volumes_spec()) {
                None => r is None,
                Some((recent, older)) => r == Some((recent as u64, older as u64)),
            },
    {
        let n = self.volumes.len();
        if n < 10 {
            return None;
        }
        let recent = average_of_five(&self.volumes, n);
        let older = average_of_five(&self.volumes, n - 5);
        if older == 0 {
            return None;
        }
        Some((recent, older))
    }

    /// Stores the confidence of the latest prediction (zero when none).
    pub fn set_confidence(&mut self, confidence: u8)
        ensures
            final(self).confidence_spec() == confidence,
            final(self).volumes_spec() == old(self).volumes_spec(),
            final(self).wf() == old(self).wf(),
    {
        self.prediction_confidence = confidence;
    }

    /// The confidence of the latest prediction.
    pub fn get_confidence(&self) -> (c: u8)
        ensures
            c == self.confidence_spec(),
    {
        self.prediction_confidence
    }
}

} // verus!

verus! {

// ---------------------------------------------------------------------------
// Blockhash freshness
// ---------------------------------------------------------------------------

/// The latest blockhash, when it was fetched, and its last valid block
/// height.
pub struct BlockhashManager {
    current: Option<([u8; 32], Instant, u64)>,
    max_age_ms: u64,
}

impl BlockhashManager {
    /// The stored blockhash and last valid block height, if any.
    pub closed spec fn stored(&self) -> Option<(Seq<u8>, u64)> {
        match self.current {
            Some((h, _, height)) => Some((h@, height)),
            None => None,
        }
    }

    pub closed spec fn max_age_spec(&self) -> u64 {
        self.max_age_ms
    }

    /// No blockhash yet; hashes older than `max_age_ms` are stale.
    pub fn new(max_age_ms: u64) -> (m: Self)
        ensures
            m.stored() is None,
            m.max_age_spec() == max_age_ms,
    {
        BlockhashManager { current: None, max_age_ms }
    }

    /// Stores a freshly fetched blockhash.
    pub fn update_blockhash(&mut self, hash: [u8; 32], last_valid_block_height: u64)
        ensures
            final(self).stored() == Some((hash@, last_valid_block_height)),
            final(self).max_age_spec() == old(self).max_age_spec(),
    {
        self.current = Some((hash, instant_now(), last_valid_block_height));
    }

    /// The stored blockhash when it is `age_ms` milliseconds old: it is
    /// returned while younger than the maximum age.
    pub fn fresh_at(&self, age_ms: u128) -> (r: Option<[u8; 32]>)
        ensures
            r is Some <==> (self.stored() is Some && age_ms < self.max_age_spec()),
            r matches Some(h) ==> self.stored() matches Some((s, _)) && h@ == s,
            r == self.fresh_at_spec(age_ms),
    {
        match &self.current {
            Some((hash, _, _)) => {
                if age_ms < self.max_age_ms as u128 {
                    Some(*hash)
                } else {
                    None
                }
            },
            None => None,
        }
    }

    /// Whether a blockhash `age_ms` milliseconds old is fresh: one is stored
    /// and it is younger than the maximum age.
    pub fn is_fresh_at(&self, age_ms: u128) -> (r: bool)
        ensures
            r == (self.stored() is Some && age_ms < self.max_age_spec()),
            r == self.is_fresh_spec(age_ms),
    {
        match &self.current {
            Some(_) => age_ms < self.max_age_ms as u128,
            None => false,
        }
    }

    /// The stored blockhash while it is younger than the maximum age: the
    /// freshness step on its age, read from the clock.
    pub fn get_fresh_blockhash(&self) -> (r: Option<[u8; 32]>)
        ensures
            exists|age_ms: u128| r == #[trigger] self.fresh_at_spec(age_ms),
    {
        match &self.current {
            Some((_, fetched, _)) => {
                let age = crate::clock::nanos_to_millis(crate::clock::elapsed_nanos(fetched));
                self.fresh_at(age)
            },
            None => self.fresh_at(0),
        }
    }

    /// Whether a blockhash is stored and younger than the maximum age: the
    /// freshness step on its age, read from the clock.
    pub fn is_fresh(&self) -> (r: bool)
        ensures
            exists|age_ms: u128| r == #[trigger] self.is_fresh_spec(age_ms),
    {
        match &self.current {
            Some((_, fetched, _)) => {
                let age = crate::clock::nanos_to_millis(crate::clock::elapsed_nanos(fetched));
                self.is_fresh_at(age)
            },
            None => self.is_fresh_at(0),
        }
    }

    /// What `fresh_at` returns for a blockhash `age_ms` old.
    pub open spec fn fresh_at_spec(&self, age_ms: u128) -> Option<[u8; 32]> {
        match self.current_hash() {
            Some(h) => if age_ms < self.max_age_spec() { Some(h) } else { None },
            None => None,
        }
    }

    /// What `is_fresh_at` returns for a blockhash `age_ms` old.
    pub open spec fn is_fresh_spec(&self, age_ms: u128) -> bool {
        self.stored() is Some && age_ms < self.max_age_spec()
    }

    /// The stored hash itself, if any.
    pub closed spec fn current_hash(&self) -> Option<[u8; 32]> {
        match self.current {
            Some((h, _, _)) => Some(h),
            None => None,
        }
    }

    /// Milliseconds since the stored blockhash was fetched; none without one.
    pub fn get_age_ms(&self) -> (r: Option<u128>)
        ensures
            r is None <==> self.stored() is None,
    {
        match &self.current {
            Some((_, fetched, _)) => Some(crate::clock::nanos_to_millis(crate::clock::elapsed_nanos(fetched))),
            None => None,
        }
    }
}

} // verus!

verus! {

// ---------------------------------------------------------------------------
// Metrics export
// ---------------------------------------------------------------------------

/// `DashMap::iter` over a count map, each entry as its key and count: every
/// entry once, in an order that the map does not fix.
#[verifier::external_body]
fn count_map_entries(m: &CountMap) -> (r: Vec<(String, u64)>)
    ensures
        r@.len() == counts(*m).len(),
        forall|i: int| 0 <= i < r@.len() ==> #[trigger] counts(*m).contains_key(r@[i].0@)
            && counts(*m)[r@[i].0@] == r@[i].1,
        forall|i: int, j: int| 0 <= i < j < r@.len() ==> #[trigger] r@[i].0@ != #[trigger] r@[j].0@,
{
    m.iter().map(|e| (e.key().clone(), *e.value())).collect()
}

/// `es` lists every entry of `m` once.
pub open spec fn lists_entries(m: Map<Seq<char>, u64>, es: Seq<(Seq<char>, u64)>) -> bool {
    &&& es.len() == m.len()
    &&& forall|i: int| 0 <= i < es.len() ==> #[trigger] m.contains_key(es[i].0) && m[es[i].0] == es[i].1
    &&& forall|i: int, j: int| 0 <= i < j < es.len() ==> #[trigger] es[i].0 != #[trigger] es[j].0
}

/// One line of the export: the metric name, a space, the value.
pub open spec fn metric_line(name: Seq<char>, v: nat) -> Seq<char> {
    name + " "@ + decimal(v) + "\n"@
}

/// The lines of the RPC error counts, in the order given.
pub open spec fn rpc_error_lines(es: Seq<(Seq<char>, u64)>) -> Seq<char>
    decreases es.len(),
{
    if es.len() == 0 {
        Seq::empty()
    } else {
        rpc_error_lines(es.drop_last())
            + metric_line("buy_engine_rpc_errors{class=\""@ + es.last().0 + "\"}"@, es.last().1 as nat)
    }
}

/// The percentile line of a history for the rank `rank(len)`: nothing for an
/// empty history.
pub open spec fn percentile_line(name: Seq<char>, h: Seq<u64>, rank: int) -> Seq<char> {
    if h.len() == 0 {
        Seq::empty()
    } else {
        metric_line(name, sorted_samples(h)[if rank < h.len() { rank } else { h.len() - 1 }] as nat)
    }
}

/// The Prometheus text of the engine's metrics, with the RPC error counts
/// listed as in `es`: the 50th, 90th and 99th percentile send latencies
/// (at ranks `len/2`, `len*9/10`, `len*99/100`, which for the at most 1000
/// samples kept are the ranks that the floating-point percentiles give),
/// the RPC error counts, the simulation failures, the in-flight depth and
/// the mempool rejections.
pub open spec fn prometheus_text(m: UniverseMetrics, es: Seq<(Seq<char>, u64)>) -> Seq<char> {
    let h = m.sniff_to_buy_latency.view_seq();
    percentile_line("buy_engine_sniff_to_buy_p50_us"@, h, (h.len() / 2) as int)
        + percentile_line("buy_engine_sniff_to_buy_p90_us"@, h, (h.len() * 9 / 10) as int)
        + percentile_line("buy_engine_sniff_to_buy_p99_us"@, h, (h.len() * 99 / 100) as int)
        + rpc_error_lines(es)
        + metric_line("buy_engine_simulation_failures"@, m.simulate_failures as nat)
        + metric_line("buy_engine_simulation_critical_failures"@, m.simulate_critical_failures as nat)
        + metric_line("buy_engine_inflight_queue_depth"@, m.inflight_queue_depth as nat)
        + metric_line("buy_engine_mempool_rejections"@, m.mempool_rejections as nat)
}

fn push_metric_line(s: &mut String, name: &str, v: u64)
    ensures
        final(s)@ == old(s)@ + metric_line(name@, v as nat),
{
    push_str(s, name);
    push_str(s, " ");
    push_decimal(s, v as u128);
    push_str(s, "\n");
}

impl UniverseMetrics {
    /// Appends the percentile line of the send latency at `rank`.
    fn push_percentile(&self, s: &mut String, name: &str, rank: usize)
        requires
            self.wf(),
        ensures
            final(s)@ == old(s)@ + percentile_line(name@, self.sniff_to_buy_latency.view_seq(), rank as int),
    {
        let v = self.sniff_to_buy_latency.to_vec();
        match sample_at_rank(v.as_slice(), rank) {
            Some(x) => push_metric_line(s, name, x),
            None => {
                assert(old(s)@ + Seq::<char>::empty() =~= old(s)@);
            },
        }
    }

    /// The engine's metrics in the Prometheus text format.
    pub fn export_prometheus_metrics(&self) -> (r: String)
        requires
            self.wf(),
        ensures
            exists|es: Seq<(Seq<char>, u64)>| #[trigger] lists_entries(counts(self.rpc_error_counts), es)
                && r@ == prometheus_text(*self, es),
    {
        let mut s = String::new();
        let n = self.sniff_to_buy_latency.len();
        proof {
            self.sniff_to_buy_latency.lemma_within_bound();
            assert(n <= 1000);
        }
        self.push_percentile(&mut s, "buy_engine_sniff_to_buy_p50_us", n / 2);
        self.push_percentile(&mut s, "buy_engine_sniff_to_buy_p90_us", n * 9 / 10);
        self.push_percentile(&mut s, "buy_engine_sniff_to_buy_p99_us", n * 99 / 100);
        let entries = count_map_entries(&self.rpc_error_counts);
        let ghost es = entries@.map_values(|e: (String, u64)| (e.0@, e.1));
        let ghost head = s@;
        let k = entries.len();
        proof {
            assert(lists_entries(counts(self.rpc_error_counts), es)) by {
                assert forall|a: int| 0 <= a < es.len() implies #[trigger] counts(self.rpc_error_counts).contains_key(es[a].0)
                    && counts(self.rpc_error_counts)[es[a].0] == es[a].1 by {
                    assert(es[a] == (entries@[a].0@, entries@[a].1));
                    assert(counts(self.rpc_error_counts).contains_key(entries@[a].0@));
                }
                assert forall|a: int, b: int| 0 <= a < b < es.len() implies #[trigger] es[a].0 != #[trigger] es[b].0 by {
                    assert(es[a].0 == entries@[a].0@);
                    assert(es[b].0 == entries@[b].0@);
                }
            }
        }
        let mut i: usize = 0;
        while i < k
            invariant
                i <= k,
                k == entries@.len(),
                lists_entries(counts(self.rpc_error_counts), es),
                es == entries@.map_values(|e: (String, u64)| (e.0@, e.1)),
                s@ == head + rpc_error_lines(es.take(i as int)),
            decreases k - i,
        {
            let (class, count) = (&entries[i].0, entries[i].1);
            let ghost before = s@;
            push_str(&mut s, "buy_engine_rpc_errors{class=\"");
            push_str(&mut s, class.as_str());
            push_str(&mut s, "\"} ");
            push_decimal(&mut s, count as u128);
            push_str(&mut s, "\n");
            proof {
                reveal_strlit("\"} ");
                reveal_strlit("\"}");
                reveal_strlit(" ");
                assert(es.take(i + 1).drop_last() =~= es.take(i as int));
                assert(es.take(i + 1).last() == (class@, count));
                assert("\"} "@ =~= "\"}"@ + " "@);
                assert(s@ =~= before + metric_line("buy_engine_rpc_errors{class=\""@ + class@ + "\"}"@, count as nat));
            }
            i = i + 1;
        }
        proof {
            assert(es.take(k as int) =~= es);
        }
        push_metric_line(&mut s, "buy_engine_simulation_failures", self.simulate_failures);
        push_metric_line(&mut s, "buy_engine_simulation_critical_failures", self.simulate_critical_failures);
        push_metric_line(&mut s, "buy_engine_inflight_queue_depth", self.inflight_queue_depth);
        push_metric_line(&mut s, "buy_engine_mempool_rejections", self.mempool_rejections);
        s
    }
}

} // verus!
