use vstd::prelude::*;

verus! {

/// Which side crossed the spread in an executed trade.
///
/// | buyer is maker | aggressor |
/// |----------------|-----------|
/// | `true`         | `Sell`    |
/// | `false`        | `Buy`     |
#[derive(Debug, Clone, Copy, PartialEq, Eq, Structural, Hash)]
pub enum AggressorSide {
    /// An aggressive buyer consumed resting asks.
    Buy,
    /// An aggressive seller consumed resting bids.
    Sell,
}

/// Display label of a side.
pub open spec fn side_label(s: AggressorSide) -> Seq<char> {
    match s {
        AggressorSide::Buy => seq!['B', 'U', 'Y'],
        AggressorSide::Sell => seq!['S', 'E', 'L', 'L'],
    }
}

impl AggressorSide {
    /// Classify the aggressor from the exchange's "buyer is maker" flag.
    pub fn from_buyer_maker(is_buyer_maker: bool) -> (r: Self)
        ensures
            r == (if is_buyer_maker {
                AggressorSide::Sell
            } else {
                AggressorSide::Buy
            }),
    {
        if is_buyer_maker {
            AggressorSide::Sell
        } else {
            AggressorSide::Buy
        }
    }

    /// Display label: "BUY" or "SELL".
    pub fn label(self) -> (r: &'static str)
        ensures
            r@ == side_label(self),
    {
        match self {
            AggressorSide::Buy => {
                proof {
                    reveal_strlit("BUY");
                }
                "BUY"
            },
            AggressorSide::Sell => {
                proof {
                    reveal_strlit("SELL");
                }
                "SELL"
            },
        }
    }
}

/// A normalized, transport-independent trade.
#[derive(Debug, Clone)]
pub struct TradeEvent {
    /// Symbol (e.g. "BTCUSDT").
    pub symbol: String,
    /// Trade id from the exchange.
    pub trade_id: u64,
    /// Price in integer ticks (the order book's representation).
    pub price_ticks: u64,
    /// Quantity in integer ticks (the order book's representation).
    pub quantity_ticks: u64,
    /// Exchange event time in milliseconds.
    pub event_time: u64,
    /// Exchange trade time in milliseconds.
    pub trade_time: u64,
    /// Local wall-clock receive time in nanoseconds.
    pub local_receive_time_ns: u128,
    /// Aggressor side.
    pub aggressor: AggressorSide,
    /// Order type (e.g. "MARKET").
    pub order_type: String,
}

impl TradeEvent {
    /// A field-by-field copy of this trade.
    pub fn copy_event(&self) -> (r: TradeEvent)
        ensures
            r == *self,
    {
        TradeEvent {
            symbol: self.symbol.clone(),
            trade_id: self.trade_id,
            price_ticks: self.price_ticks,
            quantity_ticks: self.quantity_ticks,
            event_time: self.event_time,
            trade_time: self.trade_time,
            local_receive_time_ns: self.local_receive_time_ns,
            aggressor: self.aggressor,
            order_type: self.order_type.clone(),
        }
    }
}

} // verus!
