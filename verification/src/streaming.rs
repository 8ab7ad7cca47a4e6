//! Streams of Solana data: the Geyser client and WebSocket updates.

pub mod geyser_stream;
pub mod websocket_stream;
