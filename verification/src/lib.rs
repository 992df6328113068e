//! Local order-book state for one instrument: a snapshot is ingested once,
//! incremental updates are folded into it, and a streaming session is driven
//! by a small state machine that forwards text frames to the consumer.
//!
//! Prices and sizes are binary64 quantities. The library holds each of them
//! as its 64-bit pattern, an integer, and orders prices by a signed rank that
//! is computed from the pattern (see [`models::price`]).

pub mod client;
pub mod models;
pub mod utils;

pub use client::{OKXRestClient, OKXWebSocketClient};
pub use models::Orderbook;
