//! One step of the sniffer's hot path: what happens to the bytes of one
//! transaction between the stream and the handoff batch, and the bounded
//! log of events that the step emits.

use vstd::prelude::*;

use crate::account_list::account_items;
use crate::engine::bounded_push;
use crate::pubkey::all_zero;
use crate::sniffer::dataflow::SnifferEvent;
use crate::sniffer::errors::{
    account_error_text, mint_error_text, AccountExtractError, MintExtractError,
};
use crate::sniffer::extractor::{
    key_bytes, price_hint_ok, spec_extract_accounts, spec_extract_mint, ExtractError,
    PremintCandidate, PriorityLevel,
};
use crate::sniffer::prefilter::{should_process, spec_should_process};
use crate::sniffer::security::{
    all_bytes, is_valid_candidate, quick_sanity_check, spec_is_valid_candidate,
    spec_quick_sanity,
};
use crate::text::push_str;

verus! {

/// The text of an extraction error.
pub open spec fn extract_error_text(e: ExtractError) -> Seq<char> {
    match e {
        ExtractError::MintExtract(m) => "Mint extraction error: "@ + mint_error_text(m),
        ExtractError::AccountExtract(a) => "Account extraction error: "@ + account_error_text(a),
    }
}

impl ExtractError {
    /// The error's message.
    pub fn message(&self) -> (r: String)
        ensures
            r@ == extract_error_text(*self),
    {
        let mut s = String::new();
        match self {
            ExtractError::MintExtract(m) => {
                push_str(&mut s, "Mint extraction error: ");
                push_str(&mut s, m.message());
            },
            ExtractError::AccountExtract(a) => {
                push_str(&mut s, "Account extraction error: ");
                push_str(&mut s, a.message());
            },
        }
        proof {
            reveal_strlit("Mint extraction error: ");
            reveal_strlit("Account extraction error: ");
        }
        s
    }

    /// Whether the mint, rather than the accounts, could not be read.
    pub fn is_mint_error(&self) -> (r: bool)
        ensures
            r == (*self is MintExtract),
    {
        match self {
            ExtractError::MintExtract(_) => true,
            ExtractError::AccountExtract(_) => false,
        }
    }
}

/// A mint key that the inline check accepts: not all zeros, not all `0xFF`,
/// and not four equal leading bytes.
pub open spec fn mint_looks_real(m: Seq<u8>) -> bool {
    &&& !all_zero(m)
    &&& !all_bytes(m, 0xffu8)
    &&& !(m[0] == m[1] && m[1] == m[2] && m[2] == m[3])
}

/// The priority given to a candidate by the analytics' verdict.
pub open spec fn priority_of(high_priority: bool) -> PriorityLevel {
    if high_priority { PriorityLevel::High } else { PriorityLevel::Low }
}

/// What became of one transaction on the hot path.
pub enum TxOutcome {
    /// Rejected by the quick sanity check of its bytes.
    SanityRejected,
    /// Rejected by the prefilter.
    Filtered,
    /// The mint or the accounts could not be read.
    ExtractionFailed(ExtractError),
    /// A candidate was read but failed the inline validation.
    ValidationRejected,
    /// A candidate ready for the handoff batch.
    Accepted(PremintCandidate),
}

/// Runs the hot-path checks on the bytes of one transaction, in the order of
/// the process loop: sanity check, prefilter, extraction (with the priority
/// that the analytics gave and its price hint), inline validation.
pub fn process_transaction(
    tx_bytes: &[u8],
    trace_id: u64,
    price_hint_bits: u64,
    high_priority: bool,
    safe_offsets: bool,
) -> (r: TxOutcome)
    ensures
        !spec_quick_sanity(tx_bytes@) <==> r is SanityRejected,
        (spec_quick_sanity(tx_bytes@) && !spec_should_process(tx_bytes@)) <==> r is Filtered,
        r matches TxOutcome::ExtractionFailed(e) ==> {
            &&& spec_quick_sanity(tx_bytes@) && spec_should_process(tx_bytes@)
            &&& match e {
                ExtractError::MintExtract(m) =>
                    spec_extract_mint(tx_bytes@, safe_offsets) == Err::<Seq<u8>, MintExtractError>(m),
                ExtractError::AccountExtract(a) => {
                    &&& spec_extract_mint(tx_bytes@, safe_offsets) is Ok
                    &&& spec_extract_accounts(tx_bytes@, safe_offsets) == Err::<Seq<Seq<u8>>, AccountExtractError>(a)
                },
            }
        },
        (spec_quick_sanity(tx_bytes@) && spec_should_process(tx_bytes@)
            && spec_extract_mint(tx_bytes@, safe_offsets) is Ok
            && spec_extract_accounts(tx_bytes@, safe_offsets) is Ok) ==> {
            let m = spec_extract_mint(tx_bytes@, safe_offsets)->Ok_0;
            &&& (r is ValidationRejected <==> !(mint_looks_real(m) && price_hint_ok(price_hint_bits)))
            &&& (r is Accepted <==> (mint_looks_real(m) && price_hint_ok(price_hint_bits)))
        },
        r matches TxOutcome::Accepted(c) ==> {
            &&& spec_extract_mint(tx_bytes@, safe_offsets) == Ok::<Seq<u8>, MintExtractError>(c.mint.bytes@)
            &&& spec_extract_accounts(tx_bytes@, safe_offsets)
                == Ok::<Seq<Seq<u8>>, AccountExtractError>(key_bytes(account_items(c.accounts)))
            &&& c.price_hint_bits == price_hint_bits
            &&& c.trace_id == trace_id
            &&& c.priority == priority_of(high_priority)
            &&& spec_is_valid_candidate(c)
        },
{
    if !quick_sanity_check(tx_bytes) {
        return TxOutcome::SanityRejected;
    }
    if !should_process(tx_bytes) {
        return TxOutcome::Filtered;
    }
    let priority = if high_priority { PriorityLevel::High } else { PriorityLevel::Low };
    let candidate = match PremintCandidate::try_extract_candidate(
        tx_bytes,
        trace_id,
        price_hint_bits,
        priority,
        safe_offsets,
    ) {
        Ok(c) => c,
        Err(e) => return TxOutcome::ExtractionFailed(e),
    };
    if !is_valid_candidate(&candidate) {
        return TxOutcome::ValidationRejected;
    }
    TxOutcome::Accepted(candidate)
}

/// A bounded log of the newest sniffer events, oldest first.
pub struct EventCollector {
    events: Vec<SnifferEvent>,
    max_events: usize,
}

impl EventCollector {
    pub closed spec fn events_spec(&self) -> Seq<SnifferEvent> {
        self.events@
    }

    pub closed spec fn max_spec(&self) -> nat {
        self.max_events as nat
    }

    /// The log never holds more than its bound.
    pub closed spec fn wf(&self) -> bool {
        self.events@.len() <= self.max_events || self.events@.len() == 0
    }

    /// An empty log of at most `max_events` events.
    pub fn new(max_events: usize) -> (c: Self)
        ensures
            c.wf(),
            c.events_spec() == Seq::<SnifferEvent>::empty(),
            c.max_spec() == max_events,
    {
        EventCollector { events: Vec::new(), max_events }
    }

    /// Records an event, dropping the oldest when the log is full. A log
    /// bounded by zero events cannot take one.
    pub fn collect(&mut self, event: SnifferEvent)
        requires
            old(self).wf(),
            old(self).max_spec() > 0,
        ensures
            final(self).wf(),
            final(self).max_spec() == old(self).max_spec(),
            final(self).events_spec() == bounded_push(old(self).events_spec(), event, old(self).max_spec()),
    {
        if self.events.len() >= self.max_events {
            let _ = self.events.remove(0);
        }
        self.events.push(event);
        proof {
            assert(old(self).events@.len() >= old(self).max_events ==> old(self).events@.remove(0) =~= old(self).events@.drop_first());
        }
    }

    /// The newest `count` events (all of them if there are fewer), oldest
    /// first.
    pub fn get_recent(&self, count: usize) -> (r: Vec<SnifferEvent>)
        ensures
            r@ == self.events_spec().subrange(
                self.events_spec().len() - (if count < self.events_spec().len() { count as int } else { self.events_spec().len() as int }),
                self.events_spec().len() as int,
            ),
    {
        let n = self.events.len();
        let start: usize = if count < n { n - count } else { 0 };
        let mut out: Vec<SnifferEvent> = Vec::new();
        let mut i: usize = start;
        while i < n
            invariant
                start <= i <= n,
                n == self.events@.len(),
                out@ == self.events@.subrange(start as int, i as int),
            decreases n - i,
        {
            out.push(self.events[i].clone());
            proof {
                assert(out@ =~= self.events@.subrange(start as int, i + 1));
            }
            i = i + 1;
        }
        out
    }

    /// Empties the log.
    pub fn clear(&mut self)
        ensures
            final(self).wf(),
            final(self).max_spec() == old(self).max_spec(),
            final(self).events_spec() == Seq::<SnifferEvent>::empty(),
    {
        self.events.clear();
    }

    /// The most events the log holds.
    pub fn capacity(&self) -> (n: usize)
        ensures
            n == self.max_spec(),
    {
        self.max_events
    }

    /// The number of events held.
    pub fn len(&self) -> (n: usize)
        ensures
            n == self.events_spec().len(),
    {
        self.events.len()
    }
}

} // verus!
