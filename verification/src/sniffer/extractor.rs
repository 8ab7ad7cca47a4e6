//! Candidate extraction from raw transaction bytes.
//!
//! The mint is read at bytes `64..96`; up to eight account keys are read
//! from offset 96 onwards, one every 32 bytes.

use vstd::prelude::*;

use crate::account_list::{account_items, AccountList};
use crate::pubkey::{all_zero, key_at, Pubkey};
use crate::sniffer::errors::{AccountExtractError, MintExtractError};

verus! {

/// Priority level for candidates.
#[derive(Debug, Clone, Copy, PartialEq, Eq, Structural)]
pub enum PriorityLevel {
    /// High priority - should be processed immediately
    High,
    /// Low priority - can be processed with normal queue
    Low,
}

/// Offset of the mint key inside the transaction bytes.
pub const MINT_OFFSET: usize = 64;

/// Offset of the first account key inside the transaction bytes.
pub const ACCOUNTS_OFFSET: usize = 96;

/// Most account keys a candidate carries.
pub const MAX_ACCOUNTS: usize = 8;

/// The bytes of each key, in order.
pub open spec fn key_bytes(ks: Seq<Pubkey>) -> Seq<Seq<u8>> {
    ks.map_values(|k: Pubkey| k.bytes@)
}

/// The mint extraction outcome for transaction bytes `s`.
pub open spec fn spec_extract_mint(s: Seq<u8>, safe_offsets: bool) -> Result<Seq<u8>, MintExtractError> {
    if s.len() < 96 {
        Err(MintExtractError::TooSmall)
    } else if safe_offsets && all_zero(key_at(s, 64)) {
        Err(MintExtractError::InvalidMint)
    } else {
        Ok(key_at(s, 64))
    }
}

/// The account keys read from offset `off` onwards, appended to `acc`: one
/// key every 32 bytes while a whole key fits and fewer than eight are held;
/// with `safe_offsets`, all-zero keys are skipped.
pub open spec fn collect_accounts(s: Seq<u8>, off: int, acc: Seq<Seq<u8>>, safe_offsets: bool) -> Seq<Seq<u8>>
    decreases s.len() - off,
{
    if 0 <= off && off + 32 <= s.len() && acc.len() < 8 {
        let k = key_at(s, off);
        let acc2 = if !safe_offsets || !all_zero(k) { acc.push(k) } else { acc };
        collect_accounts(s, off + 32, acc2, safe_offsets)
    } else {
        acc
    }
}

/// The account extraction outcome for transaction bytes `s`.
pub open spec fn spec_extract_accounts(s: Seq<u8>, safe_offsets: bool) -> Result<Seq<Seq<u8>>, AccountExtractError> {
    if s.len() < 128 {
        Err(AccountExtractError::TooSmall)
    } else if collect_accounts(s, 96, seq![], safe_offsets).len() == 0 {
        Err(AccountExtractError::InvalidAccount)
    } else {
        Ok(collect_accounts(s, 96, seq![], safe_offsets))
    }
}

proof fn lemma_collect_bounded(s: Seq<u8>, off: int, acc: Seq<Seq<u8>>, safe_offsets: bool)
    requires
        acc.len() <= 8,
    ensures
        collect_accounts(s, off, acc, safe_offsets).len() <= 8,
    decreases s.len() - off,
{
    if 0 <= off && off + 32 <= s.len() && acc.len() < 8 {
        let k = key_at(s, off);
        let acc2 = if !safe_offsets || !all_zero(k) { acc.push(k) } else { acc };
        lemma_collect_bounded(s, off + 32, acc2, safe_offsets);
    }
}

/// How many whole 32-byte key slots follow offset 96.
pub open spec fn slot_count(s: Seq<u8>) -> nat {
    if s.len() >= 96 { ((s.len() - 96) / 32) as nat } else { 0 }
}

/// The 32-byte key slots after offset 96, in order: slot `i` holds bytes
/// `96 + 32 i .. 128 + 32 i`.
pub open spec fn account_slots(s: Seq<u8>) -> Seq<Seq<u8>> {
    Seq::new(slot_count(s), |i: int| s.subrange(96 + 32 * i, 128 + 32 * i))
}

/// Keys that are not all zero.
pub open spec fn nonzero_key() -> spec_fn(Seq<u8>) -> bool {
    |k: Seq<u8>| !all_zero(k)
}

/// The slots that can become account keys: all of them, or with
/// `safe_offsets` only those that are not all zero.
pub open spec fn usable_slots(s: Seq<u8>, safe_offsets: bool) -> Seq<Seq<u8>> {
    if safe_offsets { account_slots(s).filter(nonzero_key()) } else { account_slots(s) }
}

/// The first `n` elements of `x`, or all of them when there are fewer.
pub open spec fn first_n<T>(x: Seq<T>, n: nat) -> Seq<T> {
    if x.len() <= n { x } else { x.take(n as int) }
}

proof fn lemma_first_n_prepend<T>(k: T, y: Seq<T>, n: nat)
    requires
        n >= 1,
    ensures
        first_n(seq![k] + y, n) == seq![k] + first_n(y, (n - 1) as nat),
{
    assert(first_n(seq![k] + y, n) =~= seq![k] + first_n(y, (n - 1) as nat));
}

proof fn lemma_slot_fits(s: Seq<u8>, j: int)
    requires
        0 <= j,
        s.len() >= 96,
    ensures
        (96 + 32 * j + 32 <= s.len()) <==> j < slot_count(s),
{
    let q = (s.len() - 96) / 32;
    let r = (s.len() - 96) % 32;
    assert(s.len() - 96 == 32 * q + r && 0 <= r < 32) by (nonlinear_arith)
        requires s.len() >= 96, q == (s.len() - 96) / 32, r == (s.len() - 96) % 32;
}

proof fn lemma_collect_from_slot(s: Seq<u8>, j: int, acc: Seq<Seq<u8>>, safe_offsets: bool)
    requires
        s.len() >= 96,
        0 <= j <= slot_count(s),
        acc.len() <= 8,
    ensures
        collect_accounts(s, 96 + 32 * j, acc, safe_offsets) == acc + first_n(
            if safe_offsets {
                account_slots(s).skip(j).filter(nonzero_key())
            } else {
                account_slots(s).skip(j)
            },
            (8 - acc.len()) as nat,
        ),
    decreases slot_count(s) - j,
{
    let rest = account_slots(s).skip(j);
    let u = if safe_offsets { rest.filter(nonzero_key()) } else { rest };
    lemma_slot_fits(s, j);
    if j < slot_count(s) && acc.len() < 8 {
        let off = 96 + 32 * j;
        let k = key_at(s, off);
        let tail = account_slots(s).skip(j + 1);
        assert(rest =~= seq![k] + tail);
        let u2 = if safe_offsets { tail.filter(nonzero_key()) } else { tail };
        let keep = !safe_offsets || !all_zero(k);
        let acc2 = if keep { acc.push(k) } else { acc };
        lemma_collect_from_slot(s, j + 1, acc2, safe_offsets);
        assert(96 + 32 * (j + 1) == off + 32);
        if safe_offsets {
            tail.lemma_filter_prepend(k, nonzero_key());
        }
        if keep {
            assert(u == seq![k] + u2);
            lemma_first_n_prepend(k, u2, (8 - acc.len()) as nat);
            assert(acc + (seq![k] + first_n(u2, (8 - acc.len() - 1) as nat))
                =~= acc.push(k) + first_n(u2, (8 - acc.len() - 1) as nat));
        } else {
            assert(u =~= u2);
        }
    } else if acc.len() == 8 {
        assert(first_n(u, 0) =~= Seq::<Seq<u8>>::empty());
        assert(acc + first_n(u, 0) =~= acc);
    } else {
        assert(rest =~= Seq::<Seq<u8>>::empty());
        if safe_offsets {
            reveal(Seq::filter);
        }
        assert(u =~= Seq::<Seq<u8>>::empty());
        assert(acc + first_n(u, (8 - acc.len()) as nat) =~= acc);
    }
}

/// Account extraction reads every 32-byte slot after offset 96 in order,
/// skips all-zero keys when `safe_offsets` is set, and keeps the first
/// eight keys it may use: the result is refused as too small below 128
/// bytes, refused as invalid when no slot is usable, and otherwise holds
/// exactly the first `min(8, usable)` usable keys, in order.
pub proof fn lemma_extract_accounts_reads_first_eight_usable_slots(s: Seq<u8>, safe_offsets: bool)
    ensures
        s.len() < 128 ==> spec_extract_accounts(s, safe_offsets) == Err::<Seq<Seq<u8>>, AccountExtractError>(
            AccountExtractError::TooSmall,
        ),
        s.len() >= 128 && usable_slots(s, safe_offsets).len() == 0 ==> spec_extract_accounts(s, safe_offsets)
            == Err::<Seq<Seq<u8>>, AccountExtractError>(AccountExtractError::InvalidAccount),
        s.len() >= 128 && usable_slots(s, safe_offsets).len() > 0 ==> spec_extract_accounts(s, safe_offsets)
            == Ok::<Seq<Seq<u8>>, AccountExtractError>(first_n(usable_slots(s, safe_offsets), 8)),
{
    if s.len() >= 96 {
        lemma_collect_from_slot(s, 0, seq![], safe_offsets);
        assert(account_slots(s).skip(0) =~= account_slots(s));
        assert(Seq::<Seq<u8>>::empty() + first_n(usable_slots(s, safe_offsets), 8)
            =~= first_n(usable_slots(s, safe_offsets), 8));
        let f = first_n(usable_slots(s, safe_offsets), 8);
        assert(f.len() == 0 <==> usable_slots(s, safe_offsets).len() == 0);
    }
}

/// Without `safe_offsets` the keys are the slots themselves: as many as
/// fit, up to eight, key `i` being bytes `96 + 32 i .. 128 + 32 i`.
pub proof fn lemma_extract_accounts_keeps_every_slot(s: Seq<u8>)
    requires
        s.len() >= 128,
    ensures
        spec_extract_accounts(s, false) is Ok,
        spec_extract_accounts(s, false)->Ok_0.len() == if slot_count(s) < 8 { slot_count(s) } else { 8 },
        forall|i: int| 0 <= i < spec_extract_accounts(s, false)->Ok_0.len()
            ==> #[trigger] spec_extract_accounts(s, false)->Ok_0[i] == s.subrange(96 + 32 * i, 128 + 32 * i),
{
    lemma_extract_accounts_reads_first_eight_usable_slots(s, false);
    lemma_slot_fits(s, 0);
}

/// When every slot among the first `k <= 8` holds a non-zero key and the
/// transaction has no further slot, extraction with `safe_offsets` gives
/// exactly those `k` keys, in order.
pub proof fn lemma_extract_accounts_keeps_nonzero_keys(s: Seq<u8>)
    requires
        s.len() >= 128,
        slot_count(s) <= 8,
        forall|i: int| 0 <= i < slot_count(s) ==> !all_zero(#[trigger] account_slots(s)[i]),
    ensures
        spec_extract_accounts(s, true) == Ok::<Seq<Seq<u8>>, AccountExtractError>(account_slots(s)),
{
    lemma_extract_accounts_reads_first_eight_usable_slots(s, true);
    lemma_slot_fits(s, 0);
    lemma_filter_keeps_all(account_slots(s));
}

proof fn lemma_filter_keeps_all(x: Seq<Seq<u8>>)
    requires
        forall|i: int| 0 <= i < x.len() ==> !all_zero(#[trigger] x[i]),
    ensures
        x.filter(nonzero_key()) == x,
    decreases x.len(),
{
    reveal(Seq::filter);
    if x.len() > 0 {
        let y = x.drop_last();
        assert forall|i: int| 0 <= i < y.len() implies !all_zero(#[trigger] y[i]) by {
            assert(y[i] == x[i]);
        }
        lemma_filter_keeps_all(y);
        assert(nonzero_key()(x.last()));
        assert(y.push(x.last()) =~= x);
    }
}

/// The mint is the key at bytes `64..96`: a transaction shorter than 96
/// bytes is refused as too small, an all-zero mint is refused when
/// `safe_offsets` is set, and any other mint is returned as it stands.
pub proof fn lemma_mint_is_bytes_64_to_96(s: Seq<u8>, safe_offsets: bool)
    ensures
        s.len() < 96 ==> spec_extract_mint(s, safe_offsets) == Err::<Seq<u8>, MintExtractError>(MintExtractError::TooSmall),
        s.len() >= 96 && safe_offsets && (forall|i: int| 64 <= i < 96 ==> s[i] == 0u8)
            ==> spec_extract_mint(s, safe_offsets) == Err::<Seq<u8>, MintExtractError>(MintExtractError::InvalidMint),
        s.len() >= 96 && (!safe_offsets || exists|i: int| 64 <= i < 96 && s[i] != 0u8)
            ==> spec_extract_mint(s, safe_offsets) == Ok::<Seq<u8>, MintExtractError>(s.subrange(64, 96)),
{
    if s.len() >= 96 {
        let k = s.subrange(64, 96);
        if forall|i: int| 64 <= i < 96 ==> s[i] == 0u8 {
            assert forall|j: int| 0 <= j < k.len() implies #[trigger] k[j] == 0u8 by {
                assert(k[j] == s[64 + j]);
            }
        }
        if exists|i: int| 64 <= i < 96 && s[i] != 0u8 {
            let i = choose|i: int| 64 <= i < 96 && s[i] != 0u8;
            assert(k[i - 64] == s[i]);
        }
    }
}

/// Reads the mint key at bytes `64..96`.
pub fn extract_mint(tx_bytes: &[u8], safe_offsets: bool) -> (r: Result<Pubkey, MintExtractError>)
    ensures
        match r {
            Ok(k) => spec_extract_mint(tx_bytes@, safe_offsets) == Ok::<Seq<u8>, MintExtractError>(k.bytes@),
            Err(e) => spec_extract_mint(tx_bytes@, safe_offsets) == Err::<Seq<u8>, MintExtractError>(e),
        },
{
    if tx_bytes.len() < 96 {
        return Err(MintExtractError::TooSmall);
    }
    let mint = Pubkey::from_slice_at(tx_bytes, MINT_OFFSET);
    if safe_offsets && mint.is_default() {
        return Err(MintExtractError::InvalidMint);
    }
    Ok(mint)
}

/// Reads up to eight account keys from offset 96 onwards.
pub fn extract_accounts(tx_bytes: &[u8], safe_offsets: bool) -> (r: Result<AccountList, AccountExtractError>)
    ensures
        match r {
            Ok(v) => spec_extract_accounts(tx_bytes@, safe_offsets)
                == Ok::<Seq<Seq<u8>>, AccountExtractError>(key_bytes(account_items(v))),
            Err(e) => spec_extract_accounts(tx_bytes@, safe_offsets)
                == Err::<Seq<Seq<u8>>, AccountExtractError>(e),
        },
{
    let n: usize = tx_bytes.len();
    if n < 128 {
        return Err(AccountExtractError::TooSmall);
    }
    let mut accounts = AccountList::new();
    let mut offset: usize = ACCOUNTS_OFFSET;
    assert(key_bytes(account_items(accounts)) =~= seq![]);
    while offset <= n && 32 <= n - offset && accounts.len() < MAX_ACCOUNTS
        invariant
            n == tx_bytes@.len(),
            96 <= offset,
            account_items(accounts).len() <= 8,
            collect_accounts(tx_bytes@, offset as int, key_bytes(account_items(accounts)), safe_offsets)
                == collect_accounts(tx_bytes@, 96, seq![], safe_offsets),
        decreases n - offset,
    {
        let account = Pubkey::from_slice_at(tx_bytes, offset);
        let ghost before = account_items(accounts);
        if !safe_offsets || !account.is_default() {
            accounts.push(account);
            assert(key_bytes(account_items(accounts)) =~= key_bytes(before).push(account.bytes@));
        }
        offset = offset + 32;
    }
    if accounts.is_empty() {
        assert(key_bytes(account_items(accounts)) =~= seq![]);
        return Err(AccountExtractError::InvalidAccount);
    }
    Ok(accounts)
}

} // verus!

verus! {

/// A price hint is usable when, read as an IEEE-754 double, it is finite and
/// not below zero: the exponent field is not all ones, and either the sign bit
/// is clear or the value is a zero.
pub open spec fn price_hint_ok(bits: u64) -> bool {
    &&& (bits >> 52u64) & 0x7ffu64 != 0x7ffu64
    &&& ((bits >> 63u64) == 0u64 || (bits & 0x7fff_ffff_ffff_ffffu64) == 0u64)
}

/// Whether the double whose bits are `bits` is finite and not negative.
pub fn price_hint_is_usable(bits: u64) -> (r: bool)
    ensures
        r == price_hint_ok(bits),
{
    (bits >> 52u64) & 0x7ffu64 != 0x7ffu64
        && ((bits >> 63u64) == 0u64 || (bits & 0x7fff_ffff_ffff_ffffu64) == 0u64)
}

/// A candidate token found in the stream: its mint, up to eight related
/// accounts, a price hint, a trace id and a priority.
///
/// The price hint is a double; it is carried as its IEEE-754 bit pattern.
pub struct PremintCandidate {
    /// Token mint address
    pub mint: Pubkey,
    /// Associated accounts
    pub accounts: AccountList,
    /// Price hint from heuristic analysis, as the bits of a double
    pub price_hint_bits: u64,
    /// Unique trace ID for tracking
    pub trace_id: u64,
    /// Priority level
    pub priority: PriorityLevel,
}

impl Clone for PremintCandidate {
    fn clone(&self) -> (c: PremintCandidate)
        ensures
            c.mint == self.mint,
            account_items(c.accounts) == account_items(self.accounts),
            c.price_hint_bits == self.price_hint_bits,
            c.trace_id == self.trace_id,
            c.priority == self.priority,
    {
        PremintCandidate {
            mint: self.mint,
            accounts: self.accounts.clone(),
            price_hint_bits: self.price_hint_bits,
            trace_id: self.trace_id,
            priority: self.priority,
        }
    }
}

/// Extraction error type.
#[derive(Debug, Clone, Copy, PartialEq, Eq, Structural)]
pub enum ExtractError {
    /// Mint extraction failed
    MintExtract(MintExtractError),
    /// Account extraction failed
    AccountExtract(AccountExtractError),
}

impl PremintCandidate {
    /// Creates a candidate from its parts.
    pub fn new(
        mint: Pubkey,
        accounts: AccountList,
        price_hint_bits: u64,
        trace_id: u64,
        priority: PriorityLevel,
    ) -> (c: PremintCandidate)
        ensures
            c.mint == mint,
            c.accounts == accounts,
            c.price_hint_bits == price_hint_bits,
            c.trace_id == trace_id,
            c.priority == priority,
    {
        PremintCandidate { mint, accounts, price_hint_bits, trace_id, priority }
    }

    /// Extracts a candidate from transaction bytes: the mint first, then the
    /// accounts; the first failure is returned.
    pub fn try_extract_candidate(
        tx_bytes: &[u8],
        trace_id: u64,
        price_hint_bits: u64,
        priority: PriorityLevel,
        safe_offsets: bool,
    ) -> (r: Result<PremintCandidate, ExtractError>)
        ensures
            match r {
                Ok(c) => {
                    &&& spec_extract_mint(tx_bytes@, safe_offsets) == Ok::<Seq<u8>, MintExtractError>(c.mint.bytes@)
                    &&& spec_extract_accounts(tx_bytes@, safe_offsets)
                        == Ok::<Seq<Seq<u8>>, AccountExtractError>(key_bytes(account_items(c.accounts)))
                    &&& c.price_hint_bits == price_hint_bits
                    &&& c.trace_id == trace_id
                    &&& c.priority == priority
                },
                Err(ExtractError::MintExtract(e)) =>
                    spec_extract_mint(tx_bytes@, safe_offsets) == Err::<Seq<u8>, MintExtractError>(e),
                Err(ExtractError::AccountExtract(e)) => {
                    &&& spec_extract_mint(tx_bytes@, safe_offsets) is Ok
                    &&& spec_extract_accounts(tx_bytes@, safe_offsets) == Err::<Seq<Seq<u8>>, AccountExtractError>(e)
                },
            },
    {
        let mint = match extract_mint(tx_bytes, safe_offsets) {
            Ok(m) => m,
            Err(e) => return Err(ExtractError::MintExtract(e)),
        };
        let accounts = match extract_accounts(tx_bytes, safe_offsets) {
            Ok(a) => a,
            Err(e) => return Err(ExtractError::AccountExtract(e)),
        };
        Ok(PremintCandidate::new(mint, accounts, price_hint_bits, trace_id, priority))
    }

    /// Whether this candidate has high priority.
    pub fn is_high_priority(&self) -> (r: bool)
        ensures
            r == (self.priority == PriorityLevel::High),
    {
        match self.priority {
            PriorityLevel::High => true,
            PriorityLevel::Low => false,
        }
    }
}

} // verus!
