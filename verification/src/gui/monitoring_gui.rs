//! What the monitoring dashboard keeps between frames: a bounded price
//! history for each token it has seen, and the token selected for detail.

use vstd::prelude::*;

use crate::components::price_stream::{price_pending, price_try_recv, PriceUpdate};
use tokio::sync::broadcast;
use crate::engine::bounded_push;
use crate::position_tracker::PositionTracker;
use crate::pubkey::Pubkey;
use crate::strings::chars_of;
use crate::text::{push_str, string_from_chars};
use crate::whitespace::copy_range;

verus! {

/// The most price points kept per token.
pub const MAX_PRICE_HISTORY: usize = 1024;

/// A point of a price chart: the Unix time in seconds, and the price in SOL
/// as the bits of a double.
#[derive(Clone, Copy, Debug, PartialEq, Eq, Structural)]
pub struct PricePoint {
    pub timestamp: u64,
    pub price_bits: u64,
}

/// The price history of one token as contracts see it.
pub type HistoryEntry = (Pubkey, Seq<PricePoint>);

/// The views of the stored histories.
pub open spec fn entry_views(v: Seq<(Pubkey, Vec<PricePoint>)>) -> Seq<HistoryEntry> {
    v.map_values(|e: (Pubkey, Vec<PricePoint>)| (e.0, e.1@))
}

/// No token has two histories, and none holds more than the most points.
pub open spec fn histories_wf(hs: Seq<HistoryEntry>) -> bool {
    &&& forall|a: int, b: int| 0 <= a < b < hs.len() ==> hs[a].0.bytes@ != hs[b].0.bytes@
    &&& forall|a: int| 0 <= a < hs.len() ==> #[trigger] hs[a].1.len() <= MAX_PRICE_HISTORY
}

/// The chart point of a price update: its time and SOL price.
pub open spec fn point_of(u: PriceUpdate) -> PricePoint {
    PricePoint { timestamp: u.timestamp, price_bits: u.price_sol_bits }
}

/// The histories after one update: the point goes to the end of its token's
/// history (dropping the oldest past the most points), or starts a new
/// history at the end when the token is new.
pub open spec fn with_update(hs: Seq<HistoryEntry>, u: PriceUpdate) -> Seq<HistoryEntry> {
    if exists|i: int| 0 <= i < hs.len() && #[trigger] hs[i].0.bytes@ == u.mint.bytes@ {
        let i = choose|i: int| 0 <= i < hs.len() && #[trigger] hs[i].0.bytes@ == u.mint.bytes@;
        hs.update(i, (hs[i].0, bounded_push(hs[i].1, point_of(u), MAX_PRICE_HISTORY as nat)))
    } else {
        hs.push((u.mint, seq![point_of(u)]))
    }
}

/// The histories after the updates `us`, in order.
pub open spec fn apply_updates(hs: Seq<HistoryEntry>, us: Seq<PriceUpdate>) -> Seq<HistoryEntry>
    decreases us.len(),
{
    if us.len() == 0 {
        hs
    } else {
        with_update(apply_updates(hs, us.drop_last()), us.last())
    }
}

/// The histories of the tokens that still have a position.
pub open spec fn still_held(t: PositionTracker) -> spec_fn(HistoryEntry) -> bool {
    |e: HistoryEntry| t.view_map().contains_key(e.0.bytes@)
}

/// The monitoring dashboard's state.
pub struct MonitoringGui {
    price_history: Vec<(Pubkey, Vec<PricePoint>)>,
    selected_mint: Option<Pubkey>,
}

impl MonitoringGui {
    /// The price history of each token seen, in the order first seen.
    pub closed spec fn histories(&self) -> Seq<HistoryEntry> {
        entry_views(self.price_history@)
    }

    /// The token selected for detail.
    pub closed spec fn selected(&self) -> Option<Pubkey> {
        self.selected_mint
    }

    pub closed spec fn wf(&self) -> bool {
        histories_wf(self.histories())
    }

    /// A dashboard with no history and nothing selected.
    pub fn new() -> (g: Self)
        ensures
            g.wf(),
            g.histories().len() == 0,
            g.selected() is None,
    {
        let g = MonitoringGui { price_history: Vec::new(), selected_mint: None };
        assert(g.histories() =~= Seq::<HistoryEntry>::empty());
        g
    }

    /// Adds the update's time and SOL price to its token's history, which is
    /// started if the token is new; past the most points, the oldest one is
    /// dropped.
    pub fn update_price_history(&mut self, update: PriceUpdate)
        requires
            old(self).wf(),
        ensures
            final(self).wf(),
            final(self).selected() == old(self).selected(),
            forall|i: int|
                0 <= i < old(self).histories().len() && #[trigger] old(self).histories()[i].0.bytes@
                    == update.mint.bytes@ ==> final(self).histories() == old(self).histories().update(
                    i,
                    (
                        old(self).histories()[i].0,
                        bounded_push(
                            old(self).histories()[i].1,
                            PricePoint { timestamp: update.timestamp, price_bits: update.price_sol_bits },
                            MAX_PRICE_HISTORY as nat,
                        ),
                    ),
                ),
            (forall|i: int|
                0 <= i < old(self).histories().len() ==> #[trigger] old(self).histories()[i].0.bytes@
                    != update.mint.bytes@) ==> final(self).histories() == old(self).histories().push(
                (update.mint, seq![PricePoint { timestamp: update.timestamp, price_bits: update.price_sol_bits }]),
            ),            final(self).histories() == with_update(old(self).histories(), update),
    {
        let mint = update.mint;
        let timestamp = update.timestamp;
        let price_bits = update.price_sol_bits;
        let ghost hs = self.histories();
        let p = PricePoint { timestamp, price_bits };
        let n: usize = self.price_history.len();
        let mut i: usize = 0;
        while i < n
            invariant
                i <= n,
                n == hs.len(),
                hs == self.histories(),
                hs == old(self).histories(),
                histories_wf(hs),
                self.selected_mint == old(self).selected_mint,
                p == (PricePoint { timestamp, price_bits }),
                mint == update.mint,
                timestamp == update.timestamp,
                price_bits == update.price_sol_bits,
                forall|j: int| 0 <= j < i ==> #[trigger] hs[j].0.bytes@ != mint.bytes@,
            decreases n - i,
        {
            if self.price_history[i].0 == mint {
                let (m, mut h) = self.price_history.remove(i);
                let ghost h0 = h@;
                assert(h0 == hs[i as int].1);
                if h.len() >= MAX_PRICE_HISTORY {
                    h.remove(0);
                    assert(h0.remove(0) =~= h0.drop_first());
                }
                h.push(p);
                self.price_history.insert(i, (m, h));
                proof {
                    assert forall|j: int| 0 <= j < hs.len() && #[trigger] hs[j].0.bytes@ == mint.bytes@ implies j == i by {
                        if j != i {
                            if j < i {
                                assert(hs[j].0.bytes@ != hs[i as int].0.bytes@);
                            } else {
                                assert(hs[i as int].0.bytes@ != hs[j].0.bytes@);
                            }
                        }
                    }
                    let upd = hs.update(i as int, (hs[i as int].0, bounded_push(h0, p, MAX_PRICE_HISTORY as nat)));
                    assert(self.histories() =~= upd);
                    assert forall|j: int| 0 <= j < hs.len() && #[trigger] hs[j].0.bytes@ == mint.bytes@ implies self.histories()
                        == hs.update(j, (hs[j].0, bounded_push(hs[j].1, p, MAX_PRICE_HISTORY as nat))) by {
                        assert(j == i);
                    }
                    assert(self.histories() == with_update(hs, update));

                    assert forall|a: int, b: int| 0 <= a < b < upd.len() implies upd[a].0.bytes@ != upd[b].0.bytes@ by {
                        assert(hs[a].0.bytes@ != hs[b].0.bytes@);
                    }
                    assert forall|a: int| 0 <= a < upd.len() implies #[trigger] upd[a].1.len() <= MAX_PRICE_HISTORY by {
                        if a != i {
                            assert(hs[a].1.len() <= MAX_PRICE_HISTORY);
                        }
                    }
                }
                return;
            }
            i = i + 1;
        }
        let mut h: Vec<PricePoint> = Vec::new();
        h.push(p);
        self.price_history.push((mint, h));
        proof {
            let pushed = hs.push((mint, seq![p]));
            assert(self.histories() =~= pushed);
            assert(!(exists|i: int| 0 <= i < hs.len() && #[trigger] hs[i].0.bytes@ == update.mint.bytes@));
            assert(self.histories() == with_update(hs, update));
            assert forall|a: int, b: int| 0 <= a < b < pushed.len() implies pushed[a].0.bytes@ != pushed[b].0.bytes@ by {
                if b < hs.len() {
                    assert(hs[a].0.bytes@ != hs[b].0.bytes@);
                } else {
                    assert(hs[a].0.bytes@ != mint.bytes@);
                }
            }
            assert forall|a: int| 0 <= a < pushed.len() implies #[trigger] pushed[a].1.len() <= MAX_PRICE_HISTORY by {
                if a < hs.len() {
                    assert(hs[a].1.len() <= MAX_PRICE_HISTORY);
                }
            }
        }
    }

    /// Takes the updates waiting on `price_rx` into the histories, one by one
    /// through `update_price_history`, until the receiver has none to give
    /// (at most as many as were waiting when the poll began).
    pub fn poll_price_updates(&mut self, price_rx: &mut broadcast::Receiver<PriceUpdate>)
        requires
            old(self).wf(),
        ensures
            final(self).wf(),
            final(self).selected() == old(self).selected(),
            exists|us: Seq<PriceUpdate>| final(self).histories() == #[trigger] apply_updates(old(self).histories(), us),
    {
        let pending = price_pending(price_rx);
        let mut taken: usize = 0;
        let ghost got: Seq<PriceUpdate> = Seq::empty();
        while taken < pending
            invariant
                self.wf(),
                self.selected() == old(self).selected(),
                self.histories() == apply_updates(old(self).histories(), got),
                taken <= pending,
            decreases pending - taken,
        {
            match price_try_recv(price_rx) {
                Some(update) => {
                    let ghost u = update;
                    let ghost before = self.histories();
                    self.update_price_history(update);
                    proof {
                        assert(got.push(u).drop_last() =~= got);
                        assert(apply_updates(old(self).histories(), got.push(u)) == with_update(before, u));
                        got = got.push(u);
                    }
                },
                None => break,
            }
            taken = taken + 1;
        }
        assert(self.histories() == apply_updates(old(self).histories(), got));
    }

    /// Forgets the histories of tokens without a position any more, in
    /// their order, and the selection if its position is gone.
    pub fn refresh_positions(&mut self, tracker: &PositionTracker)
        requires
            old(self).wf(),
        ensures
            final(self).wf(),
            final(self).histories() == old(self).histories().filter(still_held(*tracker)),
            final(self).selected() == match old(self).selected() {
                Some(m) => if tracker.view_map().contains_key(m.bytes@) {
                    Some(m)
                } else {
                    None
                },
                None => None,
            },
    {
        let ghost hs = self.histories();
        let ghost keep = still_held(*tracker);
        let n: usize = self.price_history.len();
        let mut kept: Vec<(Pubkey, Vec<PricePoint>)> = Vec::new();
        let mut rest: Vec<(Pubkey, Vec<PricePoint>)> = Vec::new();
        std::mem::swap(&mut rest, &mut self.price_history);
        let ghost all = rest@;
        assert(entry_views(all) == hs);
        let mut i: usize = 0;
        while i < n
            invariant
                i <= n,
                n == hs.len(),
                rest@.len() == n - i,
                forall|j: int| 0 <= j < rest@.len() ==> #[trigger] rest@[j] == all[j + i],
                entry_views(all) == hs,
                keep == still_held(*tracker),
                histories_wf(hs),
                entry_views(kept@) == hs.subrange(0, i as int).filter(keep),
            decreases n - i,
        {
            let e = rest.remove(0);
            assert(e == all[i as int]);
            let ghost ev = (e.0, e.1@);
            assert(ev == hs[i as int]);
            let ghost before = kept@;
            proof {
                reveal(Seq::filter);
                assert(hs.subrange(0, i + 1).drop_last() =~= hs.subrange(0, i as int));
                assert(hs.subrange(0, i + 1).last() == ev);
            }
            if tracker.has_position(&e.0) {
                kept.push(e);
                assert(entry_views(kept@) =~= entry_views(before).push(ev));
            }
            i = i + 1;
        }
        assert(hs.subrange(0, n as int) =~= hs);
        self.price_history = kept;
        proof {
            let f = hs.filter(keep);
            assert forall|a: int, b: int| 0 <= a < b < f.len() implies f[a].0.bytes@ != f[b].0.bytes@ by {
                lemma_filter_keeps_distinct(hs, keep, a, b);
            }
            assert forall|a: int| 0 <= a < f.len() implies #[trigger] f[a].1.len() <= MAX_PRICE_HISTORY by {
                assert(f.contains(f[a]));
                hs.lemma_filter_contains_rev(keep, f[a]);
                let x = choose|x: int| 0 <= x < hs.len() && hs[x] == f[a];
                assert(hs[x].1.len() <= MAX_PRICE_HISTORY);
            }
        }
        match self.selected_mint {
            Some(m) => {
                if !tracker.has_position(&m) {
                    self.selected_mint = None;
                }
            },
            None => {},
        }
    }

    /// Selects a token for detail, or none.
    pub fn select_mint(&mut self, mint: Option<Pubkey>)
        requires
            old(self).wf(),
        ensures
            final(self).wf(),
            final(self).histories() == old(self).histories(),
            final(self).selected() == mint,
    {
        self.selected_mint = mint;
    }

    /// The token selected for detail.
    pub fn selected_mint(&self) -> (r: Option<Pubkey>)
        ensures
            r == self.selected(),
    {
        self.selected_mint
    }

    /// The number of tokens with a price history.
    pub fn history_count(&self) -> (n: usize)
        ensures
            n == self.histories().len(),
    {
        self.price_history.len()
    }

    /// The price history of `mint`, if it has one.
    pub fn price_history_of(&self, mint: &Pubkey) -> (r: Option<Vec<PricePoint>>)
        requires
            self.wf(),
        ensures
            match r {
                Some(v) => exists|i: int|
                    0 <= i < self.histories().len() && #[trigger] self.histories()[i].0.bytes@
                        == mint.bytes@ && self.histories()[i].1 == v@,
                None => forall|i: int|
                    0 <= i < self.histories().len() ==> #[trigger] self.histories()[i].0.bytes@
                        != mint.bytes@,
            },
    {
        let n: usize = self.price_history.len();
        let mut i: usize = 0;
        while i < n
            invariant
                i <= n,
                n == self.histories().len(),
                forall|j: int| 0 <= j < i ==> #[trigger] self.histories()[j].0.bytes@ != mint.bytes@,
            decreases n - i,
        {
            if self.price_history[i].0 == *mint {
                let v = copy_points(&self.price_history[i].1);
                assert(self.histories()[i as int] == (self.price_history@[i as int].0, self.price_history@[i as int].1@));
                assert(self.histories()[i as int].0.bytes@ == mint.bytes@);
                assert(self.histories()[i as int].1 == v@);
                return Some(v);
            }
            i = i + 1;
        }
        None
    }
}

/// A copy of a list of price points.
fn copy_points(v: &Vec<PricePoint>) -> (r: Vec<PricePoint>)
    ensures
        r@ == v@,
{
    let mut r: Vec<PricePoint> = Vec::new();
    let n: usize = v.len();
    let mut i: usize = 0;
    while i < n
        invariant
            i <= n,
            n == v@.len(),
            r@ == v@.subrange(0, i as int),
        decreases n - i,
    {
        r.push(v[i]);
        i = i + 1;
        assert(r@ =~= v@.subrange(0, i as int));
    }
    assert(v@.subrange(0, n as int) =~= v@);
    r
}

proof fn lemma_filter_keeps_distinct(hs: Seq<HistoryEntry>, keep: spec_fn(HistoryEntry) -> bool, a: int, b: int)
    requires
        histories_wf(hs),
        0 <= a < b < hs.filter(keep).len(),
    ensures
        hs.filter(keep)[a].0.bytes@ != hs.filter(keep)[b].0.bytes@,
    decreases hs.len(),
{
    reveal(Seq::filter);
    let f = hs.filter(keep);
    assert(hs.len() > 0) by {
        if hs.len() == 0 {
            assert(f == hs);
        }
    }
    let init = hs.drop_last();
    assert(histories_wf(init)) by {
        assert forall|x: int, y: int| 0 <= x < y < init.len() implies init[x].0.bytes@ != init[y].0.bytes@ by {
            assert(hs[x].0.bytes@ != hs[y].0.bytes@);
        }
        assert forall|x: int| 0 <= x < init.len() implies #[trigger] init[x].1.len() <= MAX_PRICE_HISTORY by {
            assert(hs[x].1.len() <= MAX_PRICE_HISTORY);
        }
    }
    let fi = init.filter(keep);
    if keep(hs.last()) {
        assert(f == fi.push(hs.last()));
        if b < fi.len() {
            lemma_filter_keeps_distinct(init, keep, a, b);
        } else {
            assert(fi.contains(fi[a]));
            init.lemma_filter_contains_rev(keep, fi[a]);
            let x = choose|x: int| 0 <= x < init.len() && init[x] == fi[a];
            assert(hs[x] == fi[a]);
            assert(hs[x].0.bytes@ != hs[hs.len() - 1].0.bytes@);
        }
    } else {
        assert(f == fi);
        lemma_filter_keeps_distinct(init, keep, a, b);
    }
}

/// The START/STOP button's new state: stopped (0) when running (1),
/// running otherwise.
pub fn toggled_bot_state(current: u8) -> (s: u8)
    ensures
        s == if current == 1 { 0u8 } else { 1u8 },
{
    if current == 1 { 0 } else { 1 }
}

/// The status shown for a bot state.
pub open spec fn status_label_text(state: u8) -> Seq<char> {
    if state == 0 {
        "🔴 STOPPED"@
    } else if state == 1 {
        "🟢 RUNNING"@
    } else if state == 2 {
        "🟡 PAUSED"@
    } else {
        "⚪ UNKNOWN"@
    }
}

/// The status shown for a bot state.
pub fn status_label(state: u8) -> (r: &'static str)
    ensures
        r@ == status_label_text(state),
{
    if state == 0 {
        "🔴 STOPPED"
    } else if state == 1 {
        "🟢 RUNNING"
    } else if state == 2 {
        "🟡 PAUSED"
    } else {
        "⚪ UNKNOWN"
    }
}

/// A token's address as listed: its first and last four characters around
/// "...", when it has at least eight characters; whole otherwise.
pub open spec fn short_mint_text(s: Seq<char>) -> Seq<char> {
    if s.len() >= 8 {
        s.subrange(0, 4) + "..."@ + s.subrange(s.len() - 4, s.len() as int)
    } else {
        s
    }
}

/// A token's address as listed.
pub fn short_mint(mint_text: &str) -> (r: String)
    ensures
        r@ == short_mint_text(mint_text@),
{
    let cs = chars_of(mint_text);
    let n: usize = cs.len();
    if n >= 8 {
        let mut r = string_from_chars(&copy_range(&cs, 0, 4));
        push_str(&mut r, "...");
        let tail = string_from_chars(&copy_range(&cs, n - 4, n));
        push_str(&mut r, tail.as_str());
        r
    } else {
        string_from_chars(&cs)
    }
}

} // verus!
