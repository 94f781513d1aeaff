//! Turning raw exchange trades into [`TradeEvent`]s.
use vstd::prelude::*;

use crate::binance::now_unix_nanos;
use crate::binance::trade_types::FuturesTrade;
use crate::binance::types::str_equal;
use crate::orderbook::level::{
    price_str_to_ticks, quantity_str_to_ticks, text_ticks, tick_error_text, TickParseError,
};
use crate::text::push_str;
use crate::trades::trade::{AggressorSide, TradeEvent};

verus! {

/// Outcome of normalizing a raw trade.
#[derive(Debug, Clone)]
pub enum NormalizeResult {
    /// A real trade, normalized.
    Normalized(TradeEvent),
    /// A synthetic marker event (zero price or quantity, or order type "NA"),
    /// handed back unchanged.
    MarkerEvent(FuturesTrade),
    /// The price or quantity text did not parse; the message says which.
    ParseError(String),
}

impl NormalizeResult {
    /// The normalized trade of an `Ok` result.
    pub fn unwrap(self) -> (t: TradeEvent)
        requires
            self is Normalized,
        ensures
            self == NormalizeResult::Normalized(t),
    {
        match self {
            NormalizeResult::Normalized(t) => t,
            _ => vstd::pervasive::unreached(),
        }
    }
}

/// `s` is one of the zero texts "0", "0.0", "0.00".
pub open spec fn is_zero_text(s: Seq<char>) -> bool {
    s == "0"@ || s == "0.0"@ || s == "0.00"@
}

/// A synthetic, non-trade event: zero price, zero quantity or order type "NA".
pub open spec fn is_marker(t: FuturesTrade) -> bool {
    is_zero_text(t.price@) || is_zero_text(t.quantity@) || t.order_type@ == "NA"@
}

/// The message of a parse failure of `field` holding `value`.
pub open spec fn parse_error_text(field: Seq<char>, value: Seq<char>, e: TickParseError) -> Seq<
    char,
> {
    "invalid "@ + field + " '"@ + value + "': "@ + tick_error_text(e)
}

/// `r` is what normalizing `t` with local receive time `now` gives.
pub open spec fn normalizes_to(t: FuturesTrade, now: u128, r: NormalizeResult) -> bool {
    if is_marker(t) {
        r == NormalizeResult::MarkerEvent(t)
    } else {
        match text_ticks(t.price@) {
            Err(e) => r matches NormalizeResult::ParseError(m) && m@ == parse_error_text(
                "price"@,
                t.price@,
                e,
            ),
            Ok(p) => match text_ticks(t.quantity@) {
                Err(e) => r matches NormalizeResult::ParseError(m) && m@ == parse_error_text(
                    "quantity"@,
                    t.quantity@,
                    e,
                ),
                Ok(q) => r == NormalizeResult::Normalized(
                    TradeEvent {
                        symbol: t.symbol,
                        trade_id: t.trade_id,
                        price_ticks: p,
                        quantity_ticks: q,
                        event_time: t.event_time,
                        trade_time: t.trade_time,
                        local_receive_time_ns: now,
                        aggressor: if t.is_buyer_maker {
                            AggressorSide::Sell
                        } else {
                            AggressorSide::Buy
                        },
                        order_type: t.order_type,
                    },
                ),
            },
        }
    }
}

fn is_zero_str(s: &str) -> (r: bool)
    ensures
        r == is_zero_text(s@),
{
    str_equal(s, "0") || str_equal(s, "0.0") || str_equal(s, "0.00")
}

/// Whether a raw trade is a synthetic marker event rather than a real trade.
///
/// The trade stream occasionally carries bookkeeping events with price "0",
/// quantity "0" and order type "NA"; any one of these marks the event.
pub fn is_marker_event(trade: &FuturesTrade) -> (r: bool)
    ensures
        r == is_marker(*trade),
{
    is_zero_str(trade.price.as_str()) || is_zero_str(trade.quantity.as_str()) || str_equal(
        trade.order_type.as_str(),
        "NA",
    )
}

/// A field-by-field copy of a raw trade.
fn copy_trade(t: &FuturesTrade) -> (r: FuturesTrade)
    ensures
        r == *t,
{
    FuturesTrade {
        event_type: t.event_type.clone(),
        event_time: t.event_time,
        trade_time: t.trade_time,
        symbol: t.symbol.clone(),
        trade_id: t.trade_id,
        price: t.price.clone(),
        quantity: t.quantity.clone(),
        order_type: t.order_type.clone(),
        is_buyer_maker: t.is_buyer_maker,
        trade_type: t.trade_type,
    }
}

fn parse_error(field: &str, value: &str, e: TickParseError) -> (r: String)
    ensures
        r@ == parse_error_text(field@, value@, e),
{
    let mut m = String::new();
    push_str(&mut m, "invalid ");
    push_str(&mut m, field);
    push_str(&mut m, " '");
    push_str(&mut m, value);
    push_str(&mut m, "': ");
    push_str(&mut m, e.message());
    m
}

/// Normalize a raw trade, stamping it with the given local receive time.
pub fn normalize_trade_at(trade: &FuturesTrade, local_receive_time_ns: u128) -> (r:
    NormalizeResult)
    ensures
        normalizes_to(*trade, local_receive_time_ns, r),
{
    if is_marker_event(trade) {
        return NormalizeResult::MarkerEvent(copy_trade(trade));
    }
    let price_ticks = match price_str_to_ticks(trade.price.as_str()) {
        Ok(t) => t,
        Err(e) => {
            return NormalizeResult::ParseError(parse_error("price", trade.price.as_str(), e));
        },
    };
    let quantity_ticks = match quantity_str_to_ticks(trade.quantity.as_str()) {
        Ok(t) => t,
        Err(e) => {
            return NormalizeResult::ParseError(
                parse_error("quantity", trade.quantity.as_str(), e),
            );
        },
    };
    NormalizeResult::Normalized(
        TradeEvent {
            symbol: trade.symbol.clone(),
            trade_id: trade.trade_id,
            price_ticks,
            quantity_ticks,
            event_time: trade.event_time,
            trade_time: trade.trade_time,
            local_receive_time_ns,
            aggressor: AggressorSide::from_buyer_maker(trade.is_buyer_maker),
            order_type: trade.order_type.clone(),
        },
    )
}

/// Normalize a raw trade, stamping it with the current wall-clock time.
pub fn normalize_trade(trade: &FuturesTrade) -> (r: NormalizeResult)
    ensures
        exists|now: u128| normalizes_to(*trade, now, r),
{
    let now = now_unix_nanos();
    normalize_trade_at(trade, now)
}

} // verus!
