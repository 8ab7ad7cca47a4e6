//! Position tracking: one active position per token mint, with what was
//! bought, what was sold and the last price seen.
//!
//! Prices are kept as they were observed: the amounts of the last trade, or
//! a quoted price as the bit pattern of a double. Turning them into SOL per
//! token is floating-point work left to the caller.

use vstd::prelude::*;

use crate::clock::{instant_now, unix_time_secs};
use crate::pubkey::Pubkey;
use dashmap::DashMap;
use std::time::Instant;

verus! {

/// The last price seen for a token.
#[derive(Clone, Copy, Debug, PartialEq, Eq, Structural)]
pub enum LastPrice {
    /// A trade of `token_amount` tokens for `sol_lamports` lamports; the price
    /// is `sol_lamports / token_amount / 1e9` SOL per token.
    Trade { sol_lamports: u64, token_amount: u64 },
    /// A quoted price in SOL per token, as the bits of a double.
    Quote { price_bits: u64 },
}

/// An active trading position.
#[derive(Clone, Copy, Debug)]
pub struct ActivePosition {
    /// Token mint address
    pub mint: Pubkey,
    /// Unix timestamp when position was opened (seconds)
    pub entry_timestamp: u64,
    /// Initial token amount purchased
    pub initial_token_amount: u64,
    /// Total SOL spent on purchase (in lamports)
    pub initial_sol_cost: u64,
    /// Total tokens sold so far
    pub sold_token_amount: u64,
    /// Total SOL received from sales (in lamports)
    pub total_sol_from_sales: u64,
    /// Last observed price
    pub last_seen_price: LastPrice,
    /// Last update time (monotonic)
    pub last_update: Instant,
}

/// The tokens of a position not sold yet (none once more was sold than
/// bought).
pub open spec fn remaining(p: ActivePosition) -> nat {
    if p.sold_token_amount <= p.initial_token_amount {
        (p.initial_token_amount - p.sold_token_amount) as nat
    } else {
        0
    }
}

impl ActivePosition {
    /// The tokens not sold yet.
    pub fn remaining_token_amount(&self) -> (r: u64)
        ensures
            r == remaining(*self),
    {
        self.initial_token_amount.saturating_sub(self.sold_token_amount)
    }
}

/// Positions by the bytes of their mint.
pub type PositionMap = DashMap<[u8; 32], ActivePosition>;

/// The positions held by a position map, by mint bytes.
pub uninterp spec fn positions(m: PositionMap) -> Map<Seq<u8>, ActivePosition>;

/// `DashMap::new`: an empty map.
#[verifier::external_body]
fn position_map_new() -> (m: PositionMap)
    ensures
        positions(m).is_empty(),
{
    DashMap::new()
}

/// `DashMap::insert`: stores `p` under `key`, replacing any previous one.
#[verifier::external_body]
fn position_map_insert(m: &mut PositionMap, key: [u8; 32], p: ActivePosition)
    ensures
        positions(*final(m)) == positions(*old(m)).insert(key@, p),
{
    m.insert(key, p);
}

/// `DashMap::get`: the position stored under `key`, if any.
#[verifier::external_body]
fn position_map_get(m: &PositionMap, key: &[u8; 32]) -> (r: Option<ActivePosition>)
    ensures
        r == (if positions(*m).contains_key(key@) { Some(positions(*m)[key@]) } else { None }),
{
    m.get(key).map(|e| *e.value())
}

/// `DashMap::remove`: takes the position stored under `key` out, if any.
#[verifier::external_body]
fn position_map_remove(m: &mut PositionMap, key: &[u8; 32]) -> (r: Option<ActivePosition>)
    ensures
        r == (if positions(*old(m)).contains_key(key@) { Some(positions(*old(m))[key@]) } else { None }),
        positions(*final(m)) == positions(*old(m)).remove(key@),
{
    m.remove(key).map(|(_, p)| p)
}

/// `DashMap::len`: the number of positions held.
#[verifier::external_body]
fn position_map_len(m: &PositionMap) -> (n: usize)
    ensures
        n as nat == positions(*m).len(),
{
    m.len()
}

/// `DashMap::clear`: removes every position.
#[verifier::external_body]
fn position_map_clear(m: &mut PositionMap)
    ensures
        positions(*final(m)).is_empty(),
{
    m.clear()
}

/// `DashMap::iter`, each entry as its key and position: every entry once,
/// in an order that the map does not fix.
#[verifier::external_body]
fn position_map_entries(m: &PositionMap) -> (r: Vec<([u8; 32], ActivePosition)>)
    ensures
        r@.len() == positions(*m).len(),
        forall|i: int| 0 <= i < r@.len() ==> #[trigger] positions(*m).contains_key(r@[i].0@)
            && positions(*m)[r@[i].0@] == r@[i].1,
        forall|i: int, j: int| 0 <= i < j < r@.len() ==> #[trigger] r@[i].0@ != #[trigger] r@[j].0@,
{
    m.iter().map(|e| (*e.key(), *e.value())).collect()
}

/// `after` is `before` with a buy of `amount` tokens of `mint` for `cost`
/// lamports: a fresh position in the mint, with nothing sold and the buy's
/// price as the last price (zero when no token was bought), and every other
/// position as it was.
pub open spec fn buy_recorded(
    before: Map<Seq<u8>, ActivePosition>,
    after: Map<Seq<u8>, ActivePosition>,
    mint: Pubkey,
    amount: u64,
    cost: u64,
) -> bool {
    &&& after.dom() == before.dom().insert(mint.bytes@)
    &&& forall|k: Seq<u8>| k != mint.bytes@ && #[trigger] before.contains_key(k) ==> after[k] == before[k]
    &&& {
        let p = after[mint.bytes@];
        &&& p.mint == mint
        &&& p.initial_token_amount == amount
        &&& p.initial_sol_cost == cost
        &&& p.sold_token_amount == 0
        &&& p.total_sol_from_sales == 0
        &&& p.last_seen_price == if amount > 0 {
            LastPrice::Trade { sol_lamports: cost, token_amount: amount }
        } else {
            LastPrice::Quote { price_bits: 0 }
        }
    }
}

/// `after` is `before` with a sale of `amount` tokens of `mint` for `sol`
/// lamports, where `before` holds a position in the mint: the position is
/// closed once at least what was bought has been sold; otherwise it counts
/// the sale, and the sale's price (unless nothing was sold) becomes its last
/// price. Every other position stays as it was.
pub open spec fn sell_recorded(
    before: Map<Seq<u8>, ActivePosition>,
    after: Map<Seq<u8>, ActivePosition>,
    mint: Pubkey,
    amount: u64,
    sol: u64,
) -> bool {
    let old_p = before[mint.bytes@];
    let sold = old_p.sold_token_amount + amount;
    &&& forall|k: Seq<u8>| k != mint.bytes@ ==> (#[trigger] after.contains_key(k) == before.contains_key(k))
    &&& forall|k: Seq<u8>| k != mint.bytes@ && #[trigger] before.contains_key(k) ==> after[k] == before[k]
    &&& (sold >= old_p.initial_token_amount <==> !after.contains_key(mint.bytes@))
    &&& after.contains_key(mint.bytes@) ==> {
        let p = after[mint.bytes@];
        &&& p.mint == old_p.mint
        &&& p.entry_timestamp == old_p.entry_timestamp
        &&& p.initial_token_amount == old_p.initial_token_amount
        &&& p.initial_sol_cost == old_p.initial_sol_cost
        &&& p.sold_token_amount == sold
        &&& p.total_sol_from_sales == old_p.total_sol_from_sales + sol
        &&& p.last_seen_price == if amount > 0 {
            LastPrice::Trade { sol_lamports: sol, token_amount: amount }
        } else {
            old_p.last_seen_price
        }
    }
}

/// A sale of less than what remains of a position keeps it open, with what
/// remains reduced by the sale; a sale of at least what remains closes it.
pub proof fn lemma_sale_reduces_what_remains(
    before: Map<Seq<u8>, ActivePosition>,
    after: Map<Seq<u8>, ActivePosition>,
    mint: Pubkey,
    amount: u64,
    sol: u64,
)
    requires
        before.contains_key(mint.bytes@),
        sell_recorded(before, after, mint, amount, sol),
    ensures
        amount < remaining(before[mint.bytes@]) ==> after.contains_key(mint.bytes@) && remaining(
            after[mint.bytes@],
        ) == remaining(before[mint.bytes@]) - amount,
        amount >= remaining(before[mint.bytes@]) ==> !after.contains_key(mint.bytes@),
{
}

/// Buying a token and then selling all that was bought leaves no position
/// in it and every other position as it was before the buy.
pub proof fn lemma_buy_then_sell_all_leaves_the_rest(
    m0: Map<Seq<u8>, ActivePosition>,
    m1: Map<Seq<u8>, ActivePosition>,
    m2: Map<Seq<u8>, ActivePosition>,
    mint: Pubkey,
    amount: u64,
    cost: u64,
    sol: u64,
)
    requires
        buy_recorded(m0, m1, mint, amount, cost),
        sell_recorded(m1, m2, mint, amount, sol),
    ensures
        m2 == m0.remove(mint.bytes@),
{
    assert(m1.contains_key(mint.bytes@));
    assert forall|k: Seq<u8>| #[trigger] m2.contains_key(k) == m0.remove(mint.bytes@).contains_key(k) by {
        if k != mint.bytes@ {
            assert(m2.contains_key(k) == m1.contains_key(k));
            assert(m1.contains_key(k) == m0.contains_key(k));
        }
    }
    assert forall|k: Seq<u8>| #[trigger] m2.contains_key(k) implies m2[k] == m0.remove(mint.bytes@)[k] by {
        assert(k != mint.bytes@);
        assert(m1.contains_key(k) == m0.contains_key(k));
        assert(m2[k] == m1[k]);
    }
    assert(m2 =~= m0.remove(mint.bytes@));
}

/// Lock-free position tracker: one position per mint.
pub struct PositionTracker {
    positions: PositionMap,
}

impl PositionTracker {
    /// The positions, by mint bytes.
    pub closed spec fn view_map(&self) -> Map<Seq<u8>, ActivePosition> {
        positions(self.positions)
    }

    /// Every position is stored under its own mint.
    pub closed spec fn wf(&self) -> bool {
        forall|k: Seq<u8>| #[trigger] positions(self.positions).contains_key(k)
            ==> positions(self.positions)[k].mint.bytes@ == k
    }

    /// A tracker with no positions.
    pub fn new() -> (t: Self)
        ensures
            t.wf(),
            t.view_map().is_empty(),
    {
        PositionTracker { positions: position_map_new() }
    }

    /// Opens (or replaces) the position in `mint`: `token_amount` tokens
    /// bought for `sol_cost` lamports, nothing sold, the buy's price as the
    /// last price (zero when no token was bought).
    pub fn record_buy(&mut self, mint: Pubkey, token_amount: u64, sol_cost: u64)
        requires
            old(self).wf(),
        ensures
            final(self).wf(),
            buy_recorded(old(self).view_map(), final(self).view_map(), mint, token_amount, sol_cost),
    {
        let price = if token_amount > 0 {
            LastPrice::Trade { sol_lamports: sol_cost, token_amount }
        } else {
            LastPrice::Quote { price_bits: 0 }
        };
        let p = ActivePosition {
            mint,
            entry_timestamp: unix_time_secs(),
            initial_token_amount: token_amount,
            initial_sol_cost: sol_cost,
            sold_token_amount: 0,
            total_sol_from_sales: 0,
            last_seen_price: price,
            last_update: instant_now(),
        };
        position_map_insert(&mut self.positions, mint.bytes, p);
        proof {
            assert(self.view_map().dom() =~= old(self).view_map().dom().insert(mint.bytes@));
        }
    }

    /// Records a sale of `token_amount` tokens for `sol_received` lamports:
    /// false when there is no position in `mint`. The sale's price becomes
    /// the last price (unless no token was sold), and a position with
    /// nothing left is closed.
    pub fn record_sell(&mut self, mint: &Pubkey, token_amount: u64, sol_received: u64) -> (r: bool)
        requires
            old(self).wf(),
            old(self).view_map().contains_key(mint.bytes@) ==> {
                &&& old(self).view_map()[mint.bytes@].sold_token_amount + token_amount <= u64::MAX
                &&& old(self).view_map()[mint.bytes@].total_sol_from_sales + sol_received <= u64::MAX
            },
        ensures
            final(self).wf(),
            r == old(self).view_map().contains_key(mint.bytes@),
            !r ==> final(self).view_map() == old(self).view_map(),
            r ==> sell_recorded(old(self).view_map(), final(self).view_map(), *mint, token_amount, sol_received),
    {
        match position_map_get(&self.positions, &mint.bytes) {
            None => false,
            Some(pos) => {
                let mut p = pos;
                p.sold_token_amount = p.sold_token_amount + token_amount;
                p.total_sol_from_sales = p.total_sol_from_sales + sol_received;
                p.last_update = instant_now();
                if token_amount > 0 {
                    p.last_seen_price = LastPrice::Trade { sol_lamports: sol_received, token_amount };
                }
                if p.remaining_token_amount() == 0 {
                    let _ = position_map_remove(&mut self.positions, &mint.bytes);
                } else {
                    position_map_insert(&mut self.positions, mint.bytes, p);
                }
                true
            },
        }
    }

    /// Records a quoted price for `mint`: false when there is no position.
    pub fn update_price(&mut self, mint: &Pubkey, price_bits: u64) -> (r: bool)
        requires
            old(self).wf(),
        ensures
            final(self).wf(),
            r == old(self).view_map().contains_key(mint.bytes@),
            final(self).view_map().dom() == old(self).view_map().dom(),
            forall|k: Seq<u8>| k != mint.bytes@ && #[trigger] old(self).view_map().contains_key(k)
                ==> final(self).view_map()[k] == old(self).view_map()[k],
            r ==> {
                let o = old(self).view_map()[mint.bytes@];
                let p = final(self).view_map()[mint.bytes@];
                &&& p.last_seen_price == LastPrice::Quote { price_bits }
                &&& p.mint == o.mint
                &&& p.entry_timestamp == o.entry_timestamp
                &&& p.initial_token_amount == o.initial_token_amount
                &&& p.initial_sol_cost == o.initial_sol_cost
                &&& p.sold_token_amount == o.sold_token_amount
                &&& p.total_sol_from_sales == o.total_sol_from_sales
            },
            !r ==> final(self).view_map() == old(self).view_map(),
    {
        match position_map_get(&self.positions, &mint.bytes) {
            None => false,
            Some(pos) => {
                let mut p = pos;
                p.last_seen_price = LastPrice::Quote { price_bits };
                p.last_update = instant_now();
                position_map_insert(&mut self.positions, mint.bytes, p);
                proof {
                    assert(self.view_map().dom() =~= old(self).view_map().dom());
                }
                true
            },
        }
    }

    /// Every position, each once, in no fixed order.
    pub fn get_all_positions(&self) -> (r: Vec<ActivePosition>)
        requires
            self.wf(),
        ensures
            r@.len() == self.view_map().len(),
            forall|i: int| 0 <= i < r@.len() ==> #[trigger] self.view_map().contains_key(r@[i].mint.bytes@)
                && self.view_map()[r@[i].mint.bytes@] == r@[i],
            forall|i: int, j: int| 0 <= i < j < r@.len() ==> r@[i].mint.bytes@ != r@[j].mint.bytes@,
    {
        let entries = position_map_entries(&self.positions);
        let n = entries.len();
        let mut out: Vec<ActivePosition> = Vec::new();
        let mut i: usize = 0;
        while i < n
            invariant
                i <= n,
                n == entries@.len(),
                out@.len() == i,
                forall|j: int| 0 <= j < i ==> #[trigger] out@[j] == entries@[j].1,
            decreases n - i,
        {
            out.push(entries[i].1);
            i = i + 1;
        }
        proof {
            assert forall|a: int| 0 <= a < n implies #[trigger] out@[a].mint.bytes@ == entries@[a].0@ by {
                assert(positions(self.positions).contains_key(entries@[a].0@));
            }
            assert forall|a: int, b: int| 0 <= a < b < n implies out@[a].mint.bytes@ != out@[b].mint.bytes@ by {
                assert(out@[a].mint.bytes@ == entries@[a].0@);
                assert(out@[b].mint.bytes@ == entries@[b].0@);
            }
        }
        out
    }

    /// The position in `mint`, if any.
    pub fn get_position(&self, mint: &Pubkey) -> (r: Option<ActivePosition>)
        ensures
            r == (if self.view_map().contains_key(mint.bytes@) { Some(self.view_map()[mint.bytes@]) } else { None }),
    {
        position_map_get(&self.positions, &mint.bytes)
    }

    /// Whether there is a position in `mint`.
    pub fn has_position(&self, mint: &Pubkey) -> (r: bool)
        ensures
            r == self.view_map().contains_key(mint.bytes@),
    {
        position_map_get(&self.positions, &mint.bytes).is_some()
    }

    /// The number of positions.
    pub fn position_count(&self) -> (n: usize)
        ensures
            n as nat == self.view_map().len(),
    {
        position_map_len(&self.positions)
    }

    /// Closes the position in `mint`, returning it.
    pub fn remove_position(&mut self, mint: &Pubkey) -> (r: Option<ActivePosition>)
        requires
            old(self).wf(),
        ensures
            final(self).wf(),
            r == (if old(self).view_map().contains_key(mint.bytes@) {
                Some(old(self).view_map()[mint.bytes@])
            } else {
                None
            }),
            final(self).view_map() == old(self).view_map().remove(mint.bytes@),
    {
        position_map_remove(&mut self.positions, &mint.bytes)
    }

    /// Closes every position.
    pub fn clear_all(&mut self)
        ensures
            final(self).wf(),
            final(self).view_map().is_empty(),
    {
        position_map_clear(&mut self.positions);
    }
}

impl Default for PositionTracker {
    fn default() -> (t: Self)
        ensures
            t.wf(),
            t.view_map().is_empty(),
    {
        Self::new()
    }
}

} // verus!
