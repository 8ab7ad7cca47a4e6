//! Updates delivered by the WebSocket subscriptions.

use vstd::prelude::*;

use crate::encoding::{base58_text, base64_decode, base64_standard_decoded};
use crate::pubkey::{is_zero_key, Pubkey};

verus! {

/// How an account's data was encoded by the node.
#[derive(Debug, Clone, Copy, PartialEq, Eq, Structural)]
pub enum UiAccountEncoding {
    Binary,
    Base58,
    Base64,
    JsonParsed,
    Base64Zstd,
}

/// An account's data as a subscription delivers it: encoded text with its
/// encoding, parsed JSON (whose content is not read here), or the legacy
/// binary text.
#[derive(Debug, Clone)]
pub enum UiAccountData {
    LegacyBinary(String),
    Json,
    Binary(String, UiAccountEncoding),
}

/// The bytes that the delivered data stands for: encoded text is read as
/// standard base64 (whatever encoding it names), and JSON or text that is not
/// base64 gives no bytes.
pub open spec fn account_data_bytes(data: UiAccountData) -> Seq<u8> {
    match data {
        UiAccountData::Binary(text, _) => decoded_or_empty(base64_standard_decoded(text@)),
        UiAccountData::LegacyBinary(text) => decoded_or_empty(base64_standard_decoded(text@)),
        UiAccountData::Json => Seq::empty(),
    }
}

/// The decoded bytes, or none when decoding failed.
pub open spec fn decoded_or_empty(d: Option<Seq<u8>>) -> Seq<u8> {
    match d {
        Some(b) => b,
        None => Seq::empty(),
    }
}

/// What follows the base64 decoding of account data: its bytes, or none
/// when it failed.
pub fn account_bytes(decoded: Option<Vec<u8>>) -> (r: Vec<u8>)
    ensures
        match decoded {
            Some(v) => r@ == v@,
            None => r@ == Seq::<u8>::empty(),
        },
{
    match decoded {
        Some(v) => v,
        None => Vec::new(),
    }
}

/// Program account update event.
#[derive(Debug, Clone)]
pub struct ProgramUpdate {
    pub pubkey: Pubkey,
    pub account_data: Vec<u8>,
    pub slot: u64,
}

impl ProgramUpdate {
    /// The update for the account at the base58 address `pubkey`, with its
    /// delivered `data`, seen at `slot`. An address that does not parse as a
    /// key gives the all-zero key.
    pub fn from_response(pubkey: &str, data: UiAccountData, slot: u64) -> (u: Self)
        ensures
            u.slot == slot,
            u.account_data@ == account_data_bytes(data),
            forall|b: Seq<u8>| #![trigger base58_text(b)]
                pubkey.len() <= 44 && b.len() == 32 && base58_text(b) == pubkey@ ==> u.pubkey.bytes@ == b,
            (pubkey.len() > 44 || forall|b: Seq<u8>| base58_text(b) == pubkey@ ==> b.len() != 32) ==> is_zero_key(u.pubkey),
    {
        let key = match Pubkey::from_str(pubkey) {
            Ok(k) => k,
            Err(_) => Pubkey::default(),
        };
        let account_data = match data {
            UiAccountData::Binary(text, _) => account_bytes(base64_decode(text.as_str())),
            UiAccountData::LegacyBinary(text) => account_bytes(base64_decode(text.as_str())),
            UiAccountData::Json => Vec::new(),
        };
        ProgramUpdate { pubkey: key, account_data, slot }
    }
}

/// Transaction signature update event.
#[derive(Debug, Clone)]
pub struct SignatureUpdate {
    pub signature: String,
    pub slot: u64,
    pub err: Option<String>,
}

impl SignatureUpdate {
    /// The update for `signature` seen at `slot` (no error is reported).
    pub fn from_response(slot: u64, signature: String) -> (u: Self)
        ensures
            u.signature == signature,
            u.slot == slot,
            u.err is None,
    {
        SignatureUpdate { signature, slot, err: None }
    }
}

} // verus!
