use vstd::prelude::*;

verus! {

/// Raw trade event from the USDⓈ-M Futures `<symbol>@trade` stream.
///
/// Price and quantity stay text so that no precision is lost before they are
/// turned into integer ticks.
#[derive(Debug, Clone)]
pub struct FuturesTrade {
    /// Event type (`e`, e.g. "trade").
    pub event_type: String,
    /// Event time in milliseconds (`E`).
    pub event_time: u64,
    /// Trade time in milliseconds (`T`).
    pub trade_time: u64,
    /// Symbol (`s`, e.g. "BTCUSDT").
    pub symbol: String,
    /// Trade id (`t`).
    pub trade_id: u64,
    /// Price text (`p`).
    pub price: String,
    /// Quantity text (`q`).
    pub quantity: String,
    /// Order type (`X`, e.g. "MARKET").
    pub order_type: String,
    /// Whether the buyer was the maker (`m`): `true` means the seller aggressed.
    pub is_buyer_maker: bool,
    /// Trade type (`st`).
    pub trade_type: u32,
}

} // verus!
