//! Candidate validation, duplicate signature detection and the addresses
//! that are never a token mint.

use vstd::prelude::*;

use crate::clock::{elapsed_micros, instant_now};
use crate::pubkey::Pubkey;
use dashmap::DashMap;
use std::time::Instant;
use crate::sniffer::prefilter::SPL_TOKEN_PROGRAM_ID;
use vstd::hash_set::StringHashSet;
use crate::encoding::{all_base58, base58_text, decode_base58_fixed, FixedSizeError};

verus! {

/// The System Program id (`11111111111111111111111111111111`).
pub const SYSTEM_PROGRAM_ID: [u8; 32] = [
    0, 0, 0, 0, 0, 0, 0, 0, 0, 0, 0, 0, 0, 0, 0, 0, 0, 0, 0, 0, 0, 0, 0, 0, 0, 0, 0, 0, 0, 0, 0, 0,
];

/// The Associated Token Account program id
/// (`ATokenGPvbdGVxr1b2hvZbsiqW7xWH25efTNsLJA8knL`).
pub const ASSOCIATED_TOKEN_PROGRAM_ID: [u8; 32] = [
    0x8c, 0x97, 0x25, 0x8f, 0x4e, 0x24, 0x89, 0xf1, 0xbb, 0x3d, 0x10, 0x29, 0x14, 0x8e, 0x0d, 0x83,
    0x0b, 0x5a, 0x13, 0xb1, 0xde, 0x0a, 0x22, 0x09, 0x72, 0x27, 0x09, 0x76, 0xed, 0x5d, 0xf8, 0x59,
];

/// How many signatures are remembered before the memory is emptied.
pub const MAX_REMEMBERED_SIGNATURES: usize = 10000;

/// A system address: the System Program, the SPL Token program or the
/// Associated Token Account program.
pub open spec fn spec_is_system_address(k: Pubkey) -> bool {
    ||| k.bytes@ == SYSTEM_PROGRAM_ID@
    ||| k.bytes@ == SPL_TOKEN_PROGRAM_ID@
    ||| k.bytes@ == ASSOCIATED_TOKEN_PROGRAM_ID@
}

/// Whether `pubkey` is a system address.
pub fn is_system_address(pubkey: &Pubkey) -> (r: bool)
    ensures
        r == spec_is_system_address(*pubkey),
{
    *pubkey == Pubkey::new_from_array(SYSTEM_PROGRAM_ID)
        || *pubkey == Pubkey::new_from_array(SPL_TOKEN_PROGRAM_ID)
        || *pubkey == Pubkey::new_from_array(ASSOCIATED_TOKEN_PROGRAM_ID)
}

/// Whether `mint` may be a token mint: it is no system address.
pub fn validate_mint(mint: &Pubkey) -> (r: bool)
    ensures
        r == !spec_is_system_address(*mint),
{
    !is_system_address(mint)
}

/// The longest text of a signature, in bytes.
pub const MAX_BASE58_SIGNATURE_LEN: usize = 88;

/// The length of a signature, in bytes.
pub const SIGNATURE_BYTES: usize = 64;

/// Why a signature text was refused.
#[derive(Debug, Clone, Copy, PartialEq, Eq, Structural)]
pub enum ParseSignatureError {
    /// The text is too long, or decodes to other than 64 bytes
    WrongSize,
    /// The text holds a character outside the base58 alphabet
    Invalid,
}

impl ParseSignatureError {
    /// The error's text.
    pub fn message(&self) -> (r: &'static str)
        ensures
            *self == ParseSignatureError::WrongSize ==> r@ == "Invalid signature: string decoded to wrong size for signature"@,
            *self == ParseSignatureError::Invalid ==> r@ == "Invalid signature: failed to decode string to signature"@,
    {
        match self {
            ParseSignatureError::WrongSize => "Invalid signature: string decoded to wrong size for signature",
            ParseSignatureError::Invalid => "Invalid signature: failed to decode string to signature",
        }
    }
}

/// Parses the base58 text of a signature into its 64 bytes. A text longer
/// than 88 bytes is the wrong size; one with a character outside the
/// alphabet is invalid; otherwise it is the wrong size unless it decodes to
/// 64 bytes.
pub fn validate_signature(sig: &str) -> (r: Result<Vec<u8>, ParseSignatureError>)
    ensures
        sig.len() > 88 ==> r == Err::<Vec<u8>, ParseSignatureError>(ParseSignatureError::WrongSize),
        sig.len() <= 88 && !all_base58(sig@) ==> r == Err::<Vec<u8>, ParseSignatureError>(ParseSignatureError::Invalid),
        sig.len() <= 88 && all_base58(sig@) ==> match r {
            Ok(b) => b@.len() == 64 && base58_text(b@) == sig@,
            Err(e) => e == ParseSignatureError::WrongSize
                && forall|b: Seq<u8>| base58_text(b) == sig@ ==> b.len() != 64,
        },
        forall|b: Seq<u8>| #![trigger base58_text(b)]
            sig.len() <= 88 && b.len() == 64 && base58_text(b) == sig@ ==> (r matches Ok(v) && v@ == b),
{
    match decode_base58_fixed(sig, MAX_BASE58_SIGNATURE_LEN, SIGNATURE_BYTES) {
        Ok(bytes) => Ok(bytes),
        Err(FixedSizeError::WrongSize) => Err(ParseSignatureError::WrongSize),
        Err(FixedSizeError::Invalid) => Err(ParseSignatureError::Invalid),
    }
}

/// A signed transaction, as far as its validation reads it: its
/// signatures, 64 bytes each.
pub struct VersionedTransaction {
    pub signatures: Vec<Vec<u8>>,
}

/// Checks a transaction before it is sent: it must carry a signature.
pub fn validate_transaction(tx: &VersionedTransaction) -> (r: Result<(), String>)
    ensures
        r is Ok <==> tx.signatures@.len() > 0,
        r matches Err(e) ==> e@ == "Transaction has no signatures"@,
{
    if tx.signatures.len() == 0 {
        return Err(String::from_str("Transaction has no signatures"));
    }
    Ok(())
}

/// Validation result for candidates.
pub struct ValidationResult {
    valid: bool,
    pub issues: Vec<String>,
}

impl ValidationResult {
    pub closed spec fn valid_spec(&self) -> bool {
        self.valid
    }

    /// The texts of the issues found.
    pub closed spec fn issues_spec(&self) -> Seq<Seq<char>> {
        self.issues@.map_values(|s: String| s@)
    }

    /// Whether no issue was found.
    pub fn is_valid(&self) -> (r: bool)
        ensures
            r == self.valid_spec(),
    {
        self.valid
    }
}

/// A candidate as the validator sees it.
pub struct Candidate {
    pub mint: Pubkey,
    pub program: Pubkey,
}

/// Validates a candidate: a mint that is a system address is its one issue.
pub fn validate_candidate(candidate: &Candidate) -> (r: ValidationResult)
    ensures
        r.valid_spec() == !spec_is_system_address(candidate.mint),
        r.valid_spec() ==> r.issues_spec() == Seq::<Seq<char>>::empty(),
        !r.valid_spec() ==> r.issues_spec() == seq!["Invalid mint address"@],
{
    let mut issues: Vec<String> = Vec::new();
    if !validate_mint(&candidate.mint) {
        issues.push(String::from_str("Invalid mint address"));
    }
    let valid = issues.len() == 0;
    let r = ValidationResult { valid, issues };
    assert(r.issues_spec() =~= (if valid { Seq::<Seq<char>>::empty() } else { seq!["Invalid mint address"@] }));
    r
}

/// The signatures seen so far.
pub struct SeenSignatures {
    sigs: StringHashSet,
}

/// The memory after checking `sig`: a new signature is remembered, and the
/// memory is emptied when it would hold more than 10000.
pub open spec fn remember(seen: Set<Seq<char>>, sig: Seq<char>) -> Set<Seq<char>> {
    if seen.contains(sig) {
        seen
    } else if seen.len() + 1 > 10000 {
        Set::empty()
    } else {
        seen.insert(sig)
    }
}

/// A signature checked twice is a duplicate the second time, unless the
/// first check emptied the full memory; and the memory never holds more
/// than 10000 signatures.
pub proof fn lemma_second_check_is_duplicate(seen: Set<Seq<char>>, sig: Seq<char>)
    requires
        seen.finite(),
        seen.len() <= 10000,
    ensures
        remember(seen, sig).finite(),
        remember(seen, sig).len() <= 10000,
        seen.len() < 10000 || seen.contains(sig) ==> remember(seen, sig).contains(sig),
{
}

impl SeenSignatures {
    /// The texts of the remembered signatures.
    pub closed spec fn view_set(&self) -> Set<Seq<char>> {
        self.sigs@
    }

    /// The memory is a finite set.
    pub closed spec fn wf(&self) -> bool {
        self.sigs@.finite()
    }

    /// An empty memory.
    pub fn new() -> (s: Self)
        ensures
            s.wf(),
            s.view_set() == Set::<Seq<char>>::empty(),
    {
        SeenSignatures { sigs: StringHashSet::new() }
    }

    /// Whether `sig` is remembered.
    pub fn contains(&self, sig: &str) -> (r: bool)
        ensures
            r == self.view_set().contains(sig@),
    {
        self.sigs.contains(sig)
    }

    /// The number of signatures remembered.
    pub fn len(&self) -> (n: usize)
        ensures
            n == self.view_set().len(),
    {
        self.sigs.len()
    }
}

/// Duplicate detection: true when `sig` was not seen before (it is then
/// remembered), false for a duplicate. The memory is emptied when it grows
/// past 10000 signatures.
pub fn check_duplicate_signature(seen: &mut SeenSignatures, sig: &str) -> (r: bool)
    requires
        old(seen).wf(),
    ensures
        final(seen).wf(),
        r == !old(seen).view_set().contains(sig@),
        final(seen).view_set() == remember(old(seen).view_set(), sig@),
{
    if seen.contains(sig) {
        return false;
    }
    seen.sigs.insert(sig.to_string());
    if seen.sigs.len() > MAX_REMEMBERED_SIGNATURES {
        seen.sigs.clear();
    }
    true
}

/// Request times (microseconds since the limiter started) by mint bytes.
pub type RequestLog = DashMap<[u8; 32], Vec<u128>>;

/// The request times held by a request log, by mint bytes.
pub uninterp spec fn request_times(m: RequestLog) -> Map<Seq<u8>, Seq<u128>>;

/// `DashMap::new`: an empty log.
#[verifier::external_body]
fn request_log_new() -> (m: RequestLog)
    ensures
        request_times(m).is_empty(),
{
    DashMap::new()
}

/// `DashMap::get`: a copy of the times stored under `key`, if any.
#[verifier::external_body]
fn request_log_get(m: &RequestLog, key: &[u8; 32]) -> (r: Option<Vec<u128>>)
    ensures
        match r {
            Some(v) => request_times(*m).contains_key(key@) && v@ == request_times(*m)[key@],
            None => !request_times(*m).contains_key(key@),
        },
{
    m.get(key).map(|e| e.value().clone())
}

/// `DashMap::insert`: stores `v` under `key`, replacing what was there.
#[verifier::external_body]
fn request_log_insert(m: &mut RequestLog, key: [u8; 32], v: Vec<u128>)
    ensures
        request_times(*final(m)) == request_times(*old(m)).insert(key@, v@),
{
    m.insert(key, v);
}

/// The request times still inside a window of `window_us` ending at
/// `now_us`, in order.
pub open spec fn in_window(ts: Seq<u128>, now_us: u128, window_us: u128) -> Seq<u128> {
    ts.filter(|t: u128| t + window_us > now_us)
}

/// The times recorded for a mint (none if it was never seen).
pub open spec fn times_of(m: Map<Seq<u8>, Seq<u128>>, k: Seq<u8>) -> Seq<u128> {
    if m.contains_key(k) { m[k] } else { Seq::empty() }
}

/// Per-mint request rate limiting over a sliding window.
pub struct MintRateLimiter {
    log: RequestLog,
    started: Instant,
}

impl MintRateLimiter {
    pub closed spec fn times(&self) -> Map<Seq<u8>, Seq<u128>> {
        request_times(self.log)
    }

    /// A limiter that has seen no request.
    pub fn new() -> (l: Self)
        ensures
            l.times().is_empty(),
    {
        MintRateLimiter { log: request_log_new(), started: instant_now() }
    }

    /// A request for `mint` at `now_us`: the times outside the window are
    /// forgotten; the request is refused when `max_requests` remain in the
    /// window, else it is recorded and allowed.
    pub fn check_at(&mut self, mint: &Pubkey, now_us: u128, window_us: u128, max_requests: usize) -> (r: bool)
        ensures
            ({
                let kept = in_window(times_of(old(self).times(), mint.bytes@), now_us, window_us);
                &&& r == (kept.len() < max_requests)
                &&& final(self).times() == old(self).times().insert(
                    mint.bytes@,
                    if r { kept.push(now_us) } else { kept },
                )
            }),
    {
        let old_times: Vec<u128> = match request_log_get(&self.log, &mint.bytes) {
            Some(v) => v,
            None => Vec::new(),
        };
        let ghost ts = times_of(old(self).times(), mint.bytes@);
        proof {
            assert(old_times@ == ts);
        }
        let n = old_times.len();
        let mut kept: Vec<u128> = Vec::new();
        let mut i: usize = 0;
        while i < n
            invariant
                i <= n,
                n == old_times@.len(),
                kept@ == in_window(old_times@.take(i as int), now_us, window_us),
            decreases n - i,
        {
            let t = old_times[i];
            proof {
                assert(old_times@.take(i + 1).drop_last() =~= old_times@.take(i as int));
                reveal(Seq::filter);
            }
            if t > now_us || now_us - t < window_us {
                kept.push(t);
            }
            i = i + 1;
        }
        proof {
            assert(old_times@.take(n as int) =~= old_times@);
        }
        if kept.len() >= max_requests {
            request_log_insert(&mut self.log, mint.bytes, kept);
            return false;
        }
        kept.push(now_us);
        request_log_insert(&mut self.log, mint.bytes, kept);
        true
    }
}

/// Rate limit for a mint: at most `max_requests` requests in any window of
/// `window_secs` seconds (the clock is read now).
pub fn check_mint_rate_limit(limiter: &mut MintRateLimiter, mint: &Pubkey, window_secs: u64, max_requests: usize) -> (r: bool)
    ensures
        exists|now_us: u128| #![trigger in_window(times_of(old(limiter).times(), mint.bytes@), now_us, (window_secs as u128 * 1_000_000) as u128)] {
            let kept = in_window(times_of(old(limiter).times(), mint.bytes@), now_us, (window_secs as u128 * 1_000_000) as u128);
            &&& r == (kept.len() < max_requests)
            &&& final(limiter).times() == old(limiter).times().insert(
                mint.bytes@,
                if r { kept.push(now_us) } else { kept },
            )
        },
{
    let now_us = elapsed_micros(&limiter.started);
    let window_us: u128 = window_secs as u128 * 1_000_000;
    assert(window_us == (window_secs as u128 * 1_000_000) as u128);
    let r = limiter.check_at(mint, now_us, window_us, max_requests);
    assert(in_window(times_of(old(limiter).times(), mint.bytes@), now_us, window_us) == in_window(times_of(old(limiter).times(), mint.bytes@), now_us, (window_secs as u128 * 1_000_000) as u128));
    r
}

} // verus!
