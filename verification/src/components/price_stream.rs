//! Price updates for the GUI: the latest update of each token is cached,
//! and every update is broadcast to the subscribers.
//!
//! Prices are carried as the bit patterns of doubles.

use vstd::prelude::*;

use crate::pubkey::Pubkey;
use core::time::Duration;
use dashmap::DashMap;
use tokio::sync::broadcast;

verus! {

/// The sending half of a broadcast channel.
#[verifier::external_type_specification]
#[verifier::external_body]
#[verifier::reject_recursive_types(T)]
pub struct ExBroadcastSender<T>(broadcast::Sender<T>);

/// The receiving half of a broadcast channel.
#[verifier::external_type_specification]
#[verifier::external_body]
#[verifier::reject_recursive_types(T)]
pub struct ExBroadcastReceiver<T>(broadcast::Receiver<T>);

/// A price observation for a token.
#[derive(Debug)]
pub struct PriceUpdate {
    /// Token mint address
    pub mint: Pubkey,
    /// Price in SOL, as the bits of a double
    pub price_sol_bits: u64,
    /// Price in USD, as the bits of a double
    pub price_usd_bits: u64,
    /// 24h volume, as the bits of a double
    pub volume_24h_bits: u64,
    /// Unix timestamp in seconds
    pub timestamp: u64,
    /// Where the price came from
    pub source: String,
}

/// A price update as contracts see it.
#[verifier::ext_equal]
pub struct PriceUpdateView {
    pub mint: Pubkey,
    pub price_sol_bits: u64,
    pub price_usd_bits: u64,
    pub volume_24h_bits: u64,
    pub timestamp: u64,
    pub source: Seq<char>,
}

impl View for PriceUpdate {
    type V = PriceUpdateView;

    open spec fn view(&self) -> PriceUpdateView {
        PriceUpdateView {
            mint: self.mint,
            price_sol_bits: self.price_sol_bits,
            price_usd_bits: self.price_usd_bits,
            volume_24h_bits: self.volume_24h_bits,
            timestamp: self.timestamp,
            source: self.source@,
        }
    }
}

impl Clone for PriceUpdate {
    fn clone(&self) -> (c: Self)
        ensures
            c@ == self@,
    {
        PriceUpdate {
            mint: self.mint,
            price_sol_bits: self.price_sol_bits,
            price_usd_bits: self.price_usd_bits,
            volume_24h_bits: self.volume_24h_bits,
            timestamp: self.timestamp,
            source: self.source.clone(),
        }
    }
}

/// The latest update of each token, by mint bytes.
pub type PriceCache = DashMap<[u8; 32], PriceUpdate>;

/// The updates a price cache holds, by mint bytes.
pub uninterp spec fn cached_prices(m: PriceCache) -> Map<Seq<u8>, PriceUpdateView>;

/// `DashMap::new`: an empty cache.
#[verifier::external_body]
fn price_cache_new() -> (m: PriceCache)
    ensures
        cached_prices(m).is_empty(),
{
    DashMap::new()
}

/// `DashMap::insert`: stores `u` under `key`, replacing any previous one.
#[verifier::external_body]
fn price_cache_insert(m: &mut PriceCache, key: [u8; 32], u: PriceUpdate)
    ensures
        cached_prices(*final(m)) == cached_prices(*old(m)).insert(key@, u@),
{
    m.insert(key, u);
}

/// `DashMap::get`: a copy of the update stored under `key`, if any.
#[verifier::external_body]
fn price_cache_get(m: &PriceCache, key: &[u8; 32]) -> (r: Option<PriceUpdate>)
    ensures
        match r {
            Some(u) => cached_prices(*m).contains_key(key@) && u@ == cached_prices(*m)[key@],
            None => !cached_prices(*m).contains_key(key@),
        },
{
    m.get(key).map(|e| e.value().clone())
}

/// `DashMap::len`: the number of cached tokens.
#[verifier::external_body]
fn price_cache_len(m: &PriceCache) -> (n: usize)
    ensures
        n as nat == cached_prices(*m).len(),
{
    m.len()
}

/// `DashMap::clear`: forgets every update.
#[verifier::external_body]
fn price_cache_clear(m: &mut PriceCache)
    ensures
        cached_prices(*final(m)).is_empty(),
{
    m.clear()
}

/// The updates handed to the channel through `tx`, in order. The channel
/// delivers each to the receivers subscribed before it was handed over (one
/// that falls more than the capacity behind loses the oldest, and with no
/// receiver the update reaches nobody).
pub uninterp spec fn published(tx: broadcast::Sender<PriceUpdate>) -> Seq<PriceUpdateView>;

/// Which channel `tx` sends on.
pub uninterp spec fn sender_channel(tx: broadcast::Sender<PriceUpdate>) -> int;

/// The channel a receiver listens to, and how many updates had been handed
/// to it when the receiver subscribed: the receiver is owed those after.
pub uninterp spec fn subscription(rx: broadcast::Receiver<PriceUpdate>) -> (int, nat);

/// `broadcast::channel(capacity)`, keeping the sending half: a channel whose
/// only receiver is dropped at once, so that it has no subscriber yet and
/// nothing has been handed to it.
/// `channel` panics for a capacity of zero or above `usize::MAX / 2`.
#[verifier::external_body]
fn price_channel(capacity: usize) -> (r: broadcast::Sender<PriceUpdate>)
    requires
        0 < capacity <= usize::MAX / 2,
    ensures
        published(r).len() == 0,
{
    broadcast::channel(capacity).0
}

/// `Sender::send`: hands the update to the channel, which writes it for the
/// receivers alive (none may be; that is not reported).
#[verifier::external_body]
fn price_send(tx: &mut broadcast::Sender<PriceUpdate>, u: PriceUpdate)
    ensures
        published(*final(tx)) == published(*old(tx)).push(u@),
        sender_channel(*final(tx)) == sender_channel(*old(tx)),
{
    let _ = tx.send(u);
}

/// `Sender::subscribe`: a receiver of the same channel, owed the updates
/// handed to it from now on.
#[verifier::external_body]
fn price_subscribe(tx: &broadcast::Sender<PriceUpdate>) -> (r: broadcast::Receiver<PriceUpdate>)
    ensures
        subscription(r) == (sender_channel(*tx), published(*tx).len()),
{
    tx.subscribe()
}

/// `Sender::receiver_count`: the receivers alive at the moment of the call.
#[verifier::external_body]
fn price_receiver_count(tx: &broadcast::Sender<PriceUpdate>) -> usize {
    tx.receiver_count()
}

/// `Receiver::len`: how many sent updates this receiver has not taken yet,
/// counting any that were overwritten. It depends on the channel's state.
#[verifier::external_body]
pub(crate) fn price_pending(rx: &broadcast::Receiver<PriceUpdate>) -> usize {
    rx.len()
}

/// `Receiver::try_recv`: the next update waiting for this receiver; nothing
/// when none waits, when the receiver fell behind (the next call goes on from
/// the oldest update kept) or when the channel is closed. What comes back
/// depends on the channel's state.
#[verifier::external_body]
pub(crate) fn price_try_recv(rx: &mut broadcast::Receiver<PriceUpdate>) -> Option<PriceUpdate> {
    rx.try_recv().ok()
}

/// The price feed: a cache of the latest update per token and a broadcast
/// channel to the subscribers.
pub struct PriceStreamManager {
    price_tx: broadcast::Sender<PriceUpdate>,
    update_interval: Duration,
    cache: PriceCache,
}

impl PriceStreamManager {
    /// The latest update of each token, by mint bytes.
    pub closed spec fn cache_spec(&self) -> Map<Seq<u8>, PriceUpdateView> {
        cached_prices(self.cache)
    }

    /// How often subscribers expect updates.
    pub closed spec fn interval_spec(&self) -> Duration {
        self.update_interval
    }

    /// The updates broadcast so far, in order.
    pub closed spec fn published_spec(&self) -> Seq<PriceUpdateView> {
        published(self.price_tx)
    }

    /// The channel the updates are broadcast on.
    pub closed spec fn channel_spec(&self) -> int {
        sender_channel(self.price_tx)
    }

    /// Every update is cached under its own mint.
    pub closed spec fn wf(&self) -> bool {
        forall|k: Seq<u8>| #[trigger] cached_prices(self.cache).contains_key(k)
            ==> cached_prices(self.cache)[k].mint.bytes@ == k
    }

    /// A feed with an empty cache, a channel buffering `capacity` updates
    /// per subscriber, and no subscriber.
    pub fn new(capacity: usize, update_interval: Duration) -> (m: Self)
        requires
            0 < capacity <= usize::MAX / 2,
        ensures
            m.wf(),
            m.cache_spec().is_empty(),
            m.interval_spec() == update_interval,
            m.published_spec().len() == 0,
    {
        PriceStreamManager {
            price_tx: price_channel(capacity),
            update_interval,
            cache: price_cache_new(),
        }
    }

    /// Caches the update as the latest for its token, replacing the earlier
    /// one, and broadcasts it.
    pub fn publish_price(&mut self, update: PriceUpdate)
        requires
            old(self).wf(),
        ensures
            final(self).wf(),
            final(self).cache_spec() == old(self).cache_spec().insert(update.mint.bytes@, update@),
            final(self).interval_spec() == old(self).interval_spec(),
            final(self).published_spec() == old(self).published_spec().push(update@),
            final(self).channel_spec() == old(self).channel_spec(),
    {
        let key = update.mint.bytes;
        price_cache_insert(&mut self.cache, key, update.clone());
        price_send(&mut self.price_tx, update);
    }

    /// A receiver of this feed's channel, owed the updates published from
    /// now on.
    pub fn subscribe(&self) -> (r: broadcast::Receiver<PriceUpdate>)
        ensures
            subscription(r) == (self.channel_spec(), self.published_spec().len()),
    {
        price_subscribe(&self.price_tx)
    }

    /// The latest update of `mint`, if any.
    pub fn get_cached_price(&self, mint: &Pubkey) -> (r: Option<PriceUpdate>)
        ensures
            match r {
                Some(u) => self.cache_spec().contains_key(mint.bytes@) && u@ == self.cache_spec()[mint.bytes@],
                None => !self.cache_spec().contains_key(mint.bytes@),
            },
    {
        price_cache_get(&self.cache, &mint.bytes)
    }

    /// How often subscribers expect updates.
    pub fn update_interval(&self) -> (d: Duration)
        ensures
            d == self.interval_spec(),
    {
        self.update_interval
    }

    /// The number of subscribers alive now.
    pub fn subscriber_count(&self) -> usize {
        price_receiver_count(&self.price_tx)
    }

    /// The number of tokens with a cached update.
    pub fn cache_size(&self) -> (n: usize)
        ensures
            n as nat == self.cache_spec().len(),
    {
        price_cache_len(&self.cache)
    }

    /// Forgets every cached update.
    pub fn clear_cache(&mut self)
        requires
            old(self).wf(),
        ensures
            final(self).wf(),
            final(self).cache_spec().is_empty(),
            final(self).interval_spec() == old(self).interval_spec(),
            final(self).published_spec() == old(self).published_spec(),
            final(self).channel_spec() == old(self).channel_spec(),
    {
        price_cache_clear(&mut self.cache);
    }
}

impl Default for PriceStreamManager {
    /// A feed buffering 1000 updates, refreshed every 333 ms.
    fn default() -> (m: Self)
        ensures
            m.wf(),
            m.cache_spec().is_empty(),
            m.interval_spec() == crate::sniffer::errors::millis_duration(333),
    {
        PriceStreamManager::new(1000, crate::sniffer::errors::duration_from_millis(333))
    }
}

/// A subscriber is owed exactly what is published after it subscribed: if
/// the feed's broadcast log grew from `at_subscribe` by the updates `later`,
/// the part of the log from the subscriber's start on is `later`.
pub proof fn lemma_subscriber_gets_later_publications(
    at_subscribe: Seq<PriceUpdateView>,
    later: Seq<PriceUpdateView>,
    now: Seq<PriceUpdateView>,
    start: nat,
)
    requires
        start == at_subscribe.len(),
        now == at_subscribe + later,
    ensures
        now.skip(start as int) == later,
{
    assert(now.skip(start as int) =~= later);
}

/// Reading a token's price right after publishing an update for it gives
/// that update; the other tokens' prices are as they were.
pub proof fn lemma_read_after_publish(
    before: Map<Seq<u8>, PriceUpdateView>,
    after: Map<Seq<u8>, PriceUpdateView>,
    update: PriceUpdateView,
    other: Seq<u8>,
)
    requires
        after == before.insert(update.mint.bytes@, update),
    ensures
        after.contains_key(update.mint.bytes@),
        after[update.mint.bytes@] == update,
        other != update.mint.bytes@ ==> (after.contains_key(other) == before.contains_key(other)),
        other != update.mint.bytes@ && before.contains_key(other) ==> after[other] == before[other],
{
}

} // verus!
