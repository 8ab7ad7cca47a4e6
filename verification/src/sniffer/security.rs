//! Cheap inline sanity checks on transactions and candidates.

use vstd::prelude::*;

use crate::account_list::account_items;
use crate::pubkey::{is_zero_key, Pubkey};
use crate::sniffer::extractor::{price_hint_is_usable, price_hint_ok, PremintCandidate};

verus! {

/// Smallest transaction accepted, in bytes.
pub const MIN_TX_SIZE: usize = 64;

/// Largest transaction accepted, in bytes (the Solana maximum).
pub const MAX_TX_SIZE: usize = 1232;

/// Every byte of `s` equals `b`.
pub open spec fn all_bytes(s: Seq<u8>, b: u8) -> bool {
    forall|i: int| 0 <= i < s.len() ==> #[trigger] s[i] == b
}

pub open spec fn spec_check_tx_size(s: Seq<u8>) -> bool {
    64 <= s.len() && s.len() <= 1232
}

/// A key that looks made up: all zeros, all `0xFF`, or whose first four bytes
/// are equal.
pub open spec fn spec_is_suspicious(k: Pubkey) -> bool {
    ||| is_zero_key(k)
    ||| all_bytes(k.bytes@, 0xffu8)
    ||| (k.bytes@[0] == k.bytes@[1] && k.bytes@[1] == k.bytes@[2] && k.bytes@[2] == k.bytes@[3])
}

/// A candidate that may be handed to the buy engine.
pub open spec fn spec_is_valid_candidate(c: PremintCandidate) -> bool {
    &&& !is_zero_key(c.mint)
    &&& !spec_is_suspicious(c.mint)
    &&& account_items(c.accounts).len() > 0
    &&& price_hint_ok(c.price_hint_bits)
}

pub open spec fn spec_quick_sanity(s: Seq<u8>) -> bool {
    &&& spec_check_tx_size(s)
    &&& !all_bytes(s, 0u8)
    &&& !all_bytes(s, 0xffu8)
}

/// Whether every byte of `s` equals `b`.
pub fn all_bytes_equal(s: &[u8], b: u8) -> (r: bool)
    ensures
        r == all_bytes(s@, b),
{
    let n: usize = s.len();
    let mut i: usize = 0;
    while i < n
        invariant
            i <= n,
            n == s@.len(),
            forall|j: int| 0 <= j < i ==> #[trigger] s@[j] == b,
        decreases n - i,
    {
        if s[i] != b {
            return false;
        }
        i = i + 1;
    }
    true
}

/// Whether the transaction size lies in `[64, 1232]` bytes.
pub fn check_tx_size(tx_bytes: &[u8]) -> (r: bool)
    ensures
        r == spec_check_tx_size(tx_bytes@),
{
    let size = tx_bytes.len();
    size >= MIN_TX_SIZE && size <= MAX_TX_SIZE
}

/// Whether the key is not the all-zero default.
pub fn is_valid_pubkey(pubkey: &Pubkey) -> (r: bool)
    ensures
        r == !is_zero_key(*pubkey),
{
    !pubkey.is_default()
}

/// Whether the key looks made up.
pub fn is_suspicious_pubkey(pubkey: &Pubkey) -> (r: bool)
    ensures
        r == spec_is_suspicious(*pubkey),
{
    if pubkey.is_default() {
        return true;
    }
    let bytes = pubkey.to_bytes();
    if all_bytes_equal(bytes.as_slice(), 0xFF) {
        return true;
    }
    bytes[0] == bytes[1] && bytes[1] == bytes[2] && bytes[2] == bytes[3]
}

/// The inline check run before a candidate is handed off: a real,
/// unsuspicious mint, at least one account, and a usable price hint.
pub fn is_valid_candidate(candidate: &PremintCandidate) -> (r: bool)
    ensures
        r == spec_is_valid_candidate(*candidate),
{
    if !is_valid_pubkey(&candidate.mint) {
        return false;
    }
    if is_suspicious_pubkey(&candidate.mint) {
        return false;
    }
    if candidate.accounts.is_empty() {
        return false;
    }
    if !price_hint_is_usable(candidate.price_hint_bits) {
        return false;
    }
    true
}

/// Basic sanity of transaction bytes: acceptable size, and neither all zero
/// bytes nor all `0xFF` bytes.
pub fn quick_sanity_check(tx_bytes: &[u8]) -> (r: bool)
    ensures
        r == spec_quick_sanity(tx_bytes@),
{
    if !check_tx_size(tx_bytes) {
        return false;
    }
    if all_bytes_equal(tx_bytes, 0) {
        return false;
    }
    if all_bytes_equal(tx_bytes, 0xFF) {
        return false;
    }
    true
}

/// The deep verification of a candidate, run off the hot path: the inline
/// candidate check, then the sanity check of its transaction bytes.
pub fn verify_candidate_deep(candidate: &PremintCandidate, tx_bytes: &[u8]) -> (r: Result<(), String>)
    ensures
        r is Ok <==> (spec_is_valid_candidate(*candidate) && spec_quick_sanity(tx_bytes@)),
        r matches Err(m) ==> (
            (!spec_is_valid_candidate(*candidate) && m@ == "Candidate failed inline validation"@)
            || (spec_is_valid_candidate(*candidate) && m@ == "Transaction failed sanity check"@)),
{
    if !is_valid_candidate(candidate) {
        return Err(String::from_str("Candidate failed inline validation"));
    }
    if !quick_sanity_check(tx_bytes) {
        return Err(String::from_str("Transaction failed sanity check"));
    }
    Ok(())
}

/// A candidate waiting for deep verification, with its transaction bytes.
pub struct VerificationRequest {
    pub candidate: PremintCandidate,
    pub tx_bytes: Vec<u8>,
}

/// The outcome of a deep verification: the candidate, whether it passed,
/// and why not.
pub struct VerificationResult {
    pub candidate: PremintCandidate,
    pub is_valid: bool,
    pub reason: Option<String>,
}

/// What the verifier worker answers to one request: the candidate back,
/// valid exactly when deep verification passes, with its refusal as the
/// reason otherwise.
pub fn verify_request(request: VerificationRequest) -> (r: VerificationResult)
    ensures
        r.candidate == request.candidate,
        r.is_valid <==> (spec_is_valid_candidate(request.candidate) && spec_quick_sanity(request.tx_bytes@)),
        r.is_valid <==> r.reason is None,
        r.reason matches Some(m) ==> (
            (!spec_is_valid_candidate(request.candidate) && m@ == "Candidate failed inline validation"@)
            || (spec_is_valid_candidate(request.candidate) && m@ == "Transaction failed sanity check"@)),
{
    let outcome = verify_candidate_deep(&request.candidate, request.tx_bytes.as_slice());
    let is_valid = outcome.is_ok();
    let reason = match outcome {
        Ok(()) => None,
        Err(m) => Some(m),
    };
    VerificationResult { candidate: request.candidate, is_valid, reason }
}

/// The quick sanity check refuses transactions outside 64..=1232 bytes,
/// and accepts any transaction of such a size that holds two different
/// bytes.
pub proof fn lemma_sanity_accepts_sized_varied_transactions(s: Seq<u8>, i: int, j: int)
    ensures
        (s.len() < 64 || s.len() > 1232) ==> !spec_quick_sanity(s),
        (64 <= s.len() <= 1232 && 0 <= i < s.len() && 0 <= j < s.len() && s[i] != s[j]) ==> spec_quick_sanity(s),
{
    if 64 <= s.len() <= 1232 && 0 <= i < s.len() && 0 <= j < s.len() && s[i] != s[j] {
        assert(!all_bytes(s, 0u8)) by {
            if all_bytes(s, 0u8) {
                assert(s[i] == 0u8 && s[j] == 0u8);
            }
        }
        assert(!all_bytes(s, 0xffu8)) by {
            if all_bytes(s, 0xffu8) {
                assert(s[i] == 0xffu8 && s[j] == 0xffu8);
            }
        }
    }
}

/// A candidate whose mint repeats its first byte over its first four bytes
/// (which covers the all-zero and all-`0xFF` mints), or that has no
/// account, is refused; one whose first two mint bytes differ, that has an
/// account and a usable price hint, is accepted.
pub proof fn lemma_candidate_validation(c: PremintCandidate)
    ensures
        (c.mint.bytes@[0] == c.mint.bytes@[1] && c.mint.bytes@[1] == c.mint.bytes@[2]
            && c.mint.bytes@[2] == c.mint.bytes@[3]) ==> !spec_is_valid_candidate(c),
        account_items(c.accounts).len() == 0 ==> !spec_is_valid_candidate(c),
        !price_hint_ok(c.price_hint_bits) ==> !spec_is_valid_candidate(c),
        (c.mint.bytes@[0] != c.mint.bytes@[1] && account_items(c.accounts).len() > 0
            && price_hint_ok(c.price_hint_bits)) ==> spec_is_valid_candidate(c),
{
    let m = c.mint.bytes@;
    assert(m.len() == 32);
    if m[0] != m[1] {
        assert(!is_zero_key(c.mint)) by {
            if is_zero_key(c.mint) {
                assert(m[0] == 0u8 && m[1] == 0u8);
            }
        }
        assert(!all_bytes(m, 0xffu8)) by {
            if all_bytes(m, 0xffu8) {
                assert(m[0] == 0xffu8 && m[1] == 0xffu8);
            }
        }
    }
}

} // verus!
