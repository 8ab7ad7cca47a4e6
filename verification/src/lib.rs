//! Verified core of a Solana token-sniffing and trading bot.

pub mod account_list;
pub mod buy_engine;
pub mod circuit_breaker;
pub mod clock;
pub mod components;
pub mod config;
pub mod encoding;
pub mod engine;
pub mod gui;
pub mod manual_gui;
pub mod metrics;
pub mod observability;
pub mod pattern_match;
pub mod position_tracker;
pub mod pubkey;
pub mod rate_limit;
pub mod security;
pub mod sniffer;
pub mod stats;
pub mod strings;
pub mod streaming;
pub mod structured_logging;
pub mod text;
pub mod whitespace;

pub use pubkey::Pubkey;
