//! Hot-path byte filters over raw transaction bytes.
//!
//! Program and account ids are searched for as 32-byte windows anywhere in
//! the transaction. The search looks first in the region where account keys
//! usually sit, and only then through the whole buffer.

use vstd::prelude::*;

use crate::pubkey::{key_at, Pubkey};
use crate::sniffer::errors::{AccountExtractError, MintExtractError};

verus! {

/// Pump.fun program id bytes.
pub const PUMP_FUN_PROGRAM_ID: [u8; 32] = [
    0x6f, 0x1d, 0x8a, 0x9c, 0x2e, 0xf4, 0xa3, 0x5b, 0x7c, 0x4d, 0x9e, 0x1f, 0x6a, 0x8b, 0x3c, 0x2d,
    0x5e, 0x9f, 0x4a, 0x7b, 0x1c, 0x8d, 0x3e, 0x6f, 0x2a, 0x9b, 0x5c, 0x1d, 0x7e, 0x4f, 0x8a, 0x3b,
];

/// SPL Token program id bytes.
pub const SPL_TOKEN_PROGRAM_ID: [u8; 32] = [
    0x06, 0xdd, 0xf6, 0xe1, 0xd7, 0x65, 0xa1, 0x93, 0xd9, 0xcb, 0xe1, 0x46, 0xce, 0xeb, 0x79, 0xac,
    0x1c, 0xb4, 0x85, 0xed, 0x5f, 0x5b, 0x37, 0x91, 0x3a, 0x8c, 0xf5, 0x85, 0x7e, 0xff, 0x00, 0xa9,
];

/// Start of the region where account keys usually sit.
pub const ACCOUNT_KEYS_START: usize = 67;

/// End of the region where account keys usually sit.
pub const ACCOUNT_KEYS_END: usize = 512;

/// `pat` sits in `s` at offset `i`.
pub open spec fn window_eq(s: Seq<u8>, pat: Seq<u8>, i: int) -> bool {
    &&& 0 <= i
    &&& i + pat.len() <= s.len()
    &&& s.subrange(i, i + pat.len()) == pat
}

/// `pat` sits in `s` at some offset whose window lies inside `[lo, hi)`.
pub open spec fn occurs_in(s: Seq<u8>, pat: Seq<u8>, lo: int, hi: int) -> bool {
    exists|i: int| lo <= i && i + pat.len() <= hi && #[trigger] window_eq(s, pat, i)
}

/// `pat` sits somewhere in `s`.
pub open spec fn occurs(s: Seq<u8>, pat: Seq<u8>) -> bool {
    occurs_in(s, pat, 0, s.len() as int)
}

pub open spec fn min_int(a: int, b: int) -> int {
    if a <= b { a } else { b }
}

/// A vote transaction, by the cheap signature heuristic.
pub open spec fn spec_is_vote_tx(s: Seq<u8>) -> bool {
    s.len() < 64 || s[0] == 0u8
}

/// Whether the transaction deserves the full pipeline.
pub open spec fn spec_should_process(s: Seq<u8>) -> bool {
    &&& s.len() >= 128
    &&& !spec_is_vote_tx(s)
    &&& occurs(s, PUMP_FUN_PROGRAM_ID@)
    &&& occurs(s, SPL_TOKEN_PROGRAM_ID@)
}

/// Whether `pat` sits in `s` at offset `i`.
fn matches_at(s: &[u8], pat: &[u8], i: usize) -> (r: bool)
    requires
        i + pat@.len() <= s@.len(),
    ensures
        r == window_eq(s@, pat@, i as int),
{
    let plen: usize = pat.len();
    let n: usize = s.len();
    let mut j: usize = 0;
    while j < plen
        invariant
            j <= plen,
            plen == pat@.len(),
            n == s@.len(),
            i + plen <= n,
            forall|k: int| 0 <= k < j ==> s@[i + k] == pat@[k],
        decreases plen - j,
    {
        if s[i + j] != pat[j] {
            assert(s@.subrange(i as int, i + plen)[j as int] != pat@[j as int]);
            return false;
        }
        j = j + 1;
    }
    assert(s@.subrange(i as int, i + plen) =~= pat@);
    true
}

/// Whether `pat` sits in `s` with its whole window inside `[lo, hi)`.
pub fn occurs_between(s: &[u8], pat: &[u8], lo: usize, hi: usize) -> (r: bool)
    requires
        hi <= s@.len(),
        pat@.len() > 0,
    ensures
        r == occurs_in(s@, pat@, lo as int, hi as int),
{
    let plen: usize = pat.len();
    if hi < plen || lo > hi - plen {
        return false;
    }
    let last: usize = hi - plen;
    let stop: usize = last + 1;
    let mut i: usize = lo;
    while i < stop
        invariant
            lo <= i <= stop,
            stop == last + 1,
            last + plen == hi,
            hi <= s@.len(),
            plen == pat@.len(),
            forall|k: int| lo <= k < i ==> !#[trigger] window_eq(s@, pat@, k),
        decreases stop - i,
    {
        if matches_at(s, pat, i) {
            return true;
        }
        i = i + 1;
    }
    assert forall|k: int| lo <= k && k + pat@.len() <= hi implies !#[trigger] window_eq(s@, pat@, k) by {
        assert(k <= last);
    }
    false
}

/// Search for a 32-byte id anywhere in the transaction bytes: the
/// account-key region `[67, 512)` is scanned first, where ids usually sit,
/// then the whole buffer.
pub fn find_program_id_regional(tx_bytes: &[u8], program_id: &[u8; 32]) -> (r: bool)
    ensures
        r == occurs(tx_bytes@, program_id@),
{
    let n: usize = tx_bytes.len();
    let id: &[u8] = program_id.as_slice();
    if n < 32 {
        assert(!occurs(tx_bytes@, program_id@));
        return false;
    }
    let primary_end: usize = if ACCOUNT_KEYS_END < n { ACCOUNT_KEYS_END } else { n };
    if occurs_between(tx_bytes, id, ACCOUNT_KEYS_START, primary_end) {
        proof {
            let i = choose|i: int| 67 <= i && i + 32 <= primary_end as int && #[trigger] window_eq(tx_bytes@, program_id@, i);
            assert(0 <= i && i + program_id@.len() <= n as int && window_eq(tx_bytes@, program_id@, i));
        }
        return true;
    }
    occurs_between(tx_bytes, id, 0, n)
}

/// Whether the transaction mentions the Pump.fun program.
pub fn contains_pump_fun(tx_bytes: &[u8]) -> (r: bool)
    ensures
        r == occurs(tx_bytes@, PUMP_FUN_PROGRAM_ID@),
{
    find_program_id_regional(tx_bytes, &PUMP_FUN_PROGRAM_ID)
}

/// Whether the transaction mentions the SPL Token program.
pub fn contains_spl_token(tx_bytes: &[u8]) -> (r: bool)
    ensures
        r == occurs(tx_bytes@, SPL_TOKEN_PROGRAM_ID@),
{
    find_program_id_regional(tx_bytes, &SPL_TOKEN_PROGRAM_ID)
}

/// Whether the transaction looks like a vote: shorter than 64 bytes, or
/// starting with a zero byte.
pub fn is_vote_tx(tx_bytes: &[u8]) -> (r: bool)
    ensures
        r == spec_is_vote_tx(tx_bytes@),
{
    tx_bytes.len() < 64 || tx_bytes[0] == 0x00
}

/// Whether the transaction mentions the given program id.
pub fn contains_program_id_fast(tx_bytes: &[u8], program_id: &[u8; 32]) -> (r: bool)
    ensures
        r == occurs(tx_bytes@, program_id@),
{
    find_program_id_regional(tx_bytes, program_id)
}

/// Whether the transaction mentions the given account.
pub fn contains_account_fast(tx_bytes: &[u8], account: &[u8; 32]) -> (r: bool)
    ensures
        r == occurs(tx_bytes@, account@),
{
    find_program_id_regional(tx_bytes, account)
}

/// Whether the transaction length lies in `[min_size, max_size]`.
pub fn instr_count_check(tx_bytes: &[u8], min_size: usize, max_size: usize) -> (r: bool)
    ensures
        r == (min_size <= tx_bytes@.len() && tx_bytes@.len() <= max_size),
{
    let len = tx_bytes.len();
    len >= min_size && len <= max_size
}

/// Whether `pattern` occurs anywhere in the transaction bytes.
pub fn small_signature_match(tx_bytes: &[u8], pattern: &[u8]) -> (r: bool)
    requires
        pattern@.len() > 0,
    ensures
        r == occurs(tx_bytes@, pattern@),
{
    if tx_bytes.len() < pattern.len() {
        return false;
    }
    occurs_between(tx_bytes, pattern, 0, tx_bytes.len())
}

/// The main hot-path filter: long enough, not a vote, and mentions both the
/// Pump.fun and the SPL Token programs.
pub fn should_process(tx_bytes: &[u8]) -> (r: bool)
    ensures
        r == spec_should_process(tx_bytes@),
{
    if tx_bytes.len() < 128 {
        return false;
    }
    if is_vote_tx(tx_bytes) {
        return false;
    }
    contains_pump_fun(tx_bytes) && contains_spl_token(tx_bytes)
}

/// A transaction that the prefilter lets through is no vote, holds at least
/// 128 bytes, and names both the Pump.fun and the SPL Token programs.
pub proof fn lemma_processed_transactions_name_both_programs(s: Seq<u8>)
    requires
        spec_should_process(s),
    ensures
        s.len() >= 128,
        !spec_is_vote_tx(s),
        occurs(s, PUMP_FUN_PROGRAM_ID@),
        occurs(s, SPL_TOKEN_PROGRAM_ID@),
{
}

/// The prefilter never passes a transaction shorter than 128 bytes or one
/// whose first signature byte is zero (a vote), and passes every other
/// transaction in which the Pump.fun program id sits at some offset `i` and
/// the SPL Token program id at some offset `j`.
pub proof fn lemma_prefilter_passes_exactly_pump_fun_token_transactions(s: Seq<u8>, i: int, j: int)
    ensures
        s.len() < 128 ==> !spec_should_process(s),
        (s.len() >= 128 && s[0] == 0u8) ==> !spec_should_process(s),
        (s.len() >= 128 && s[0] != 0u8 && 0 <= i && i + 32 <= s.len() && s.subrange(i, i + 32)
            == PUMP_FUN_PROGRAM_ID@ && 0 <= j && j + 32 <= s.len() && s.subrange(j, j + 32)
            == SPL_TOKEN_PROGRAM_ID@) ==> spec_should_process(s),
{
    if s.len() >= 128 && s[0] != 0u8 && 0 <= i && i + 32 <= s.len() && s.subrange(i, i + 32)
        == PUMP_FUN_PROGRAM_ID@ && 0 <= j && j + 32 <= s.len() && s.subrange(j, j + 32)
        == SPL_TOKEN_PROGRAM_ID@ {
        assert(PUMP_FUN_PROGRAM_ID@.len() == 32);
        assert(SPL_TOKEN_PROGRAM_ID@.len() == 32);
        assert(window_eq(s, PUMP_FUN_PROGRAM_ID@, i));
        assert(window_eq(s, SPL_TOKEN_PROGRAM_ID@, j));
    }
}

} // verus!
