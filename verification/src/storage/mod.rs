//! Rows of the recording store.
//!
//! Times are integers: milliseconds since the Unix epoch for exchange times
//! and nanoseconds for local receive times; a session id is its 128-bit
//! value.
use vstd::prelude::*;

verus! {

/// A raw WebSocket payload, kept byte for byte.
#[derive(Debug, Clone)]
pub struct RawEventRow {
    pub session_id: u128,
    /// Global sequence assigned by the recorder; orders replay.
    pub seq: u64,
    pub symbol: String,
    /// "depth" or "trade".
    pub stream_type: String,
    /// Exchange event time (ms).
    pub exchange_event_time: u64,
    /// Exchange transaction time (ms), when the stream has one.
    pub exchange_transaction_time: Option<u64>,
    /// Local receive time (ns).
    pub local_receive_time: u128,
    /// The payload as received.
    pub raw_payload: String,
}

/// A normalized trade row.
#[derive(Debug, Clone)]
pub struct TradeRow {
    pub session_id: u128,
    pub seq: u64,
    pub symbol: String,
    pub trade_id: u64,
    pub first_trade_id: Option<u64>,
    pub last_trade_id: Option<u64>,
    /// Price in integer ticks.
    pub price: u64,
    /// Quantity in integer ticks.
    pub quantity: u64,
    /// "BUY" or "SELL".
    pub aggressor_side: String,
    /// Exchange event time (ms).
    pub exchange_event_time: u64,
    /// Trade time (ms).
    pub trade_time: u64,
    /// Local receive time (ns).
    pub local_receive_time: u128,
    pub order_type: String,
}

/// One price-level change of a depth event. All rows of one event share
/// its `seq`; quantity 0 removes the level.
#[derive(Debug, Clone)]
pub struct LevelChangeRow {
    pub session_id: u128,
    pub seq: u64,
    pub symbol: String,
    /// Exchange event time (ms).
    pub exchange_event_time: u64,
    /// Exchange transaction time (ms).
    pub exchange_transaction_time: u64,
    /// Local receive time (ns).
    pub local_receive_time: u128,
    /// Binance `U`.
    pub first_update_id: u64,
    /// Binance `u`.
    pub final_update_id: u64,
    /// Binance `pu`.
    pub previous_final_update_id: u64,
    /// "BID" or "ASK".
    pub side: String,
    /// Price in integer ticks.
    pub price: u64,
    /// New absolute quantity in integer ticks.
    pub quantity: u64,
}

/// An order-book snapshot row.
#[derive(Debug, Clone)]
pub struct SnapshotRow {
    pub session_id: u128,
    pub seq: u64,
    pub symbol: String,
    pub snapshot_update_id: u64,
    /// Snapshot time (ms).
    pub timestamp: u64,
    /// Bid levels as JSON `[[price_ticks, quantity_ticks], ...]`.
    pub bids: String,
    /// Ask levels, in the same form.
    pub asks: String,
}

} // verus!
