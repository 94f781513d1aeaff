//! Rows handed to storage: one per raw payload, trade and snapshot, and one
//! per price level of a depth event.
use vstd::prelude::*;

use crate::binance::types::DepthUpdate;
use crate::orderbook::book::level_ticks;
use crate::orderbook::level::{price_str_to_ticks, quantity_str_to_ticks};
use crate::replay::reader::pairs_from_json_text;
use crate::storage::{LevelChangeRow, RawEventRow, SnapshotRow, TradeRow};
use crate::text::decimal_text;

verus! {

/// A normalized trade ready to be recorded.
#[derive(Debug, Clone)]
pub struct NewTrade {
    pub symbol: String,
    pub trade_id: u64,
    pub first_trade_id: Option<u64>,
    pub last_trade_id: Option<u64>,
    /// Price in integer ticks.
    pub price: u64,
    /// Quantity in integer ticks.
    pub quantity: u64,
    /// "BUY" or "SELL".
    pub aggressor_side: String,
    pub exchange_event_time_ms: u64,
    pub trade_time_ms: u64,
    pub local_receive_time_ns: u128,
    pub order_type: String,
}

/// The level pairs of `lv` whose price and quantity both parse, in order.
pub open spec fn parsed_pairs(lv: Seq<(String, String)>) -> Seq<(u64, u64)>
    decreases lv.len(),
{
    if lv.len() == 0 {
        Seq::empty()
    } else {
        let prev = parsed_pairs(lv.drop_last());
        match level_ticks(lv.last()) {
            Some(pq) => prev.push(pq),
            None => prev,
        }
    }
}

/// The compact JSON of one pair: `[a,b]`.
pub open spec fn pair_json(p: (u64, u64)) -> Seq<char> {
    "["@ + decimal_text(p.0 as nat) + ","@ + decimal_text(p.1 as nat) + "]"@
}

/// The pairs' JSON texts joined by commas.
pub open spec fn pair_items_json(p: Seq<(u64, u64)>) -> Seq<char>
    decreases p.len(),
{
    if p.len() == 0 {
        Seq::empty()
    } else if p.len() == 1 {
        pair_json(p[0])
    } else {
        pair_items_json(p.drop_last()) + ","@ + pair_json(p.last())
    }
}

/// The compact JSON of a list of integer pairs: `[[a,b],[c,d],...]`.
pub open spec fn pairs_json(p: Seq<(u64, u64)>) -> Seq<char> {
    "["@ + pair_items_json(p) + "]"@
}

/// The stored text of a level list.
pub open spec fn levels_json(p: Seq<(u64, u64)>) -> Seq<char> {
    pairs_json(p)
}

/// `serde_json::to_string` on a list of integer pairs. It writes compact
/// JSON: a sequence as `[` items `,`-separated `]`, a tuple as an array and
/// an integer in decimal; it cannot fail here (the documented failures are a
/// failing `Serialize` impl and a map with non-string keys). What it writes
/// reads back with `serde_json::from_str` as the same list.
#[verifier::external_body]
fn pairs_to_json(pairs: &Vec<(u64, u64)>) -> (r: Option<String>)
    ensures
        r is Some,
        match r {
            Some(t) => t@ == pairs_json(pairs@) && pairs_from_json_text(t@) == Some(pairs@),
            None => true,
        },
{
    match serde_json::to_string(pairs) {
        Ok(t) => Some(t),
        Err(_) => None,
    }
}

/// The pairs of `levels` that parse as ticks, in order.
pub fn parse_pairs(levels: &Vec<(String, String)>) -> (r: Vec<(u64, u64)>)
    ensures
        r@ == parsed_pairs(levels@),
{
    let mut out: Vec<(u64, u64)> = Vec::new();
    let mut i: usize = 0;
    while i < levels.len()
        invariant
            i <= levels@.len(),
            out@ == parsed_pairs(levels@.take(i as int)),
        decreases levels@.len() - i,
    {
        proof {
            assert(levels@.take(i + 1).drop_last() =~= levels@.take(i as int));
        }
        let p = price_str_to_ticks(levels[i].0.as_str());
        let q = quantity_str_to_ticks(levels[i].1.as_str());
        if let (Ok(pt), Ok(qt)) = (p, q) {
            out.push((pt, qt));
        }
        i = i + 1;
    }
    proof {
        assert(levels@.take(levels@.len() as int) =~= levels@);
    }
    out
}

/// The JSON text of the parsable levels, or `[]`.
pub fn encode_levels(levels: &Vec<(String, String)>) -> (r: String)
    ensures
        r@ == levels_json(parsed_pairs(levels@)),
        pairs_from_json_text(r@) == Some(parsed_pairs(levels@)),
{
    let pairs = parse_pairs(levels);
    match pairs_to_json(&pairs) {
        Some(t) => t,
        None => "[]".to_string(),
    }
}

/// The row of a raw payload.
pub fn raw_row(
    session_id: u128,
    seq: u64,
    symbol: &str,
    stream_type: &str,
    payload: String,
    exchange_event_ms: u64,
    exchange_transaction_ms: Option<u64>,
    local_receive_ns: u128,
) -> (r: RawEventRow)
    ensures
        r.session_id == session_id && r.seq == seq,
        r.symbol@ == symbol@ && r.stream_type@ == stream_type@,
        r.exchange_event_time == exchange_event_ms,
        r.exchange_transaction_time == exchange_transaction_ms,
        r.local_receive_time == local_receive_ns,
        r.raw_payload == payload,
{
    RawEventRow {
        session_id,
        seq,
        symbol: symbol.to_string(),
        stream_type: stream_type.to_string(),
        exchange_event_time: exchange_event_ms,
        exchange_transaction_time: exchange_transaction_ms,
        local_receive_time: local_receive_ns,
        raw_payload: payload,
    }
}

/// The row of a normalized trade.
pub fn trade_row(session_id: u128, seq: u64, t: NewTrade) -> (r: TradeRow)
    ensures
        r == (TradeRow {
            session_id,
            seq,
            symbol: t.symbol,
            trade_id: t.trade_id,
            first_trade_id: t.first_trade_id,
            last_trade_id: t.last_trade_id,
            price: t.price,
            quantity: t.quantity,
            aggressor_side: t.aggressor_side,
            exchange_event_time: t.exchange_event_time_ms,
            trade_time: t.trade_time_ms,
            local_receive_time: t.local_receive_time_ns,
            order_type: t.order_type,
        }),
{
    TradeRow {
        session_id,
        seq,
        symbol: t.symbol,
        trade_id: t.trade_id,
        first_trade_id: t.first_trade_id,
        last_trade_id: t.last_trade_id,
        price: t.price,
        quantity: t.quantity,
        aggressor_side: t.aggressor_side,
        exchange_event_time: t.exchange_event_time_ms,
        trade_time: t.trade_time_ms,
        local_receive_time: t.local_receive_time_ns,
        order_type: t.order_type,
    }
}

/// `r` is the row of level `pq` on side `side` of depth event `e`.
pub open spec fn is_level_row(
    r: LevelChangeRow,
    session_id: u128,
    seq: u64,
    e: DepthUpdate,
    local_receive_ns: u128,
    side: Seq<char>,
    pq: (u64, u64),
) -> bool {
    &&& r.session_id == session_id
    &&& r.seq == seq
    &&& r.symbol@ == e.symbol@
    &&& r.exchange_event_time == e.event_time
    &&& r.exchange_transaction_time == e.transaction_time
    &&& r.local_receive_time == local_receive_ns
    &&& r.first_update_id == e.first_update_id
    &&& r.final_update_id == e.final_update_id
    &&& r.previous_final_update_id == e.previous_final_update_id
    &&& r.side@ == side
    &&& r.price == pq.0
    &&& r.quantity == pq.1
}

fn push_level_rows(
    out: &mut Vec<LevelChangeRow>,
    session_id: u128,
    seq: u64,
    event: &DepthUpdate,
    local_receive_ns: u128,
    side: &str,
    pairs: &Vec<(u64, u64)>,
)
    ensures
        final(out)@.len() == old(out)@.len() + pairs@.len(),
        final(out)@.take(old(out)@.len() as int) == old(out)@,
        forall|i: int|
            0 <= i < pairs@.len() ==> is_level_row(
                #[trigger] final(out)@[old(out)@.len() + i],
                session_id,
                seq,
                *event,
                local_receive_ns,
                side@,
                pairs@[i],
            ),
{
    let ghost start = out@;
    let mut i: usize = 0;
    while i < pairs.len()
        invariant
            i <= pairs@.len(),
            out@.len() == start.len() + i,
            out@.take(start.len() as int) == start,
            forall|j: int|
                0 <= j < i ==> is_level_row(
                    #[trigger] out@[start.len() + j],
                    session_id,
                    seq,
                    *event,
                    local_receive_ns,
                    side@,
                    pairs@[j],
                ),
        decreases pairs@.len() - i,
    {
        let (price, quantity) = pairs[i];
        out.push(
            LevelChangeRow {
                session_id,
                seq,
                symbol: event.symbol.clone(),
                exchange_event_time: event.event_time,
                exchange_transaction_time: event.transaction_time,
                local_receive_time: local_receive_ns,
                first_update_id: event.first_update_id,
                final_update_id: event.final_update_id,
                previous_final_update_id: event.previous_final_update_id,
                side: side.to_string(),
                price,
                quantity,
            },
        );
        proof {
            assert(out@.take(start.len() as int) =~= start);
        }
        i = i + 1;
    }
}

/// One row per price level of a depth event, bids first, in order. Levels
/// whose price or quantity does not parse are left out.
pub fn depth_rows(session_id: u128, seq: u64, event: &DepthUpdate, local_receive_ns: u128) -> (r:
    Vec<LevelChangeRow>)
    ensures
        ({
            let b = parsed_pairs(event.bids@);
            let a = parsed_pairs(event.asks@);
            &&& r@.len() == b.len() + a.len()
            &&& forall|i: int|
                0 <= i < b.len() ==> is_level_row(
                    #[trigger] r@[i],
                    session_id,
                    seq,
                    *event,
                    local_receive_ns,
                    "BID"@,
                    b[i],
                )
            &&& forall|i: int|
                0 <= i < a.len() ==> is_level_row(
                    #[trigger] r@[b.len() + i],
                    session_id,
                    seq,
                    *event,
                    local_receive_ns,
                    "ASK"@,
                    a[i],
                )
        }),
{
    let bids = parse_pairs(&event.bids);
    let asks = parse_pairs(&event.asks);
    let mut rows: Vec<LevelChangeRow> = Vec::new();
    push_level_rows(&mut rows, session_id, seq, event, local_receive_ns, "BID", &bids);
    let ghost after_bids = rows@;
    push_level_rows(&mut rows, session_id, seq, event, local_receive_ns, "ASK", &asks);
    proof {
        assert forall|i: int| 0 <= i < bids@.len() implies is_level_row(
            #[trigger] rows@[i],
            session_id,
            seq,
            *event,
            local_receive_ns,
            "BID"@,
            bids@[i],
        ) by {
            assert(rows@[i] == rows@.take(after_bids.len() as int)[i]);
            assert(after_bids[0 + i] == after_bids[i]);
        }
    }
    rows
}

/// The row of an order-book snapshot.
pub fn snapshot_row(
    session_id: u128,
    seq: u64,
    symbol: &str,
    snapshot_update_id: u64,
    timestamp_ms: u64,
    bids: &Vec<(String, String)>,
    asks: &Vec<(String, String)>,
) -> (r: SnapshotRow)
    ensures
        r.session_id == session_id && r.seq == seq && r.symbol@ == symbol@,
        r.snapshot_update_id == snapshot_update_id && r.timestamp == timestamp_ms,
        r.bids@ == levels_json(parsed_pairs(bids@)),
        r.asks@ == levels_json(parsed_pairs(asks@)),
{
    SnapshotRow {
        session_id,
        seq,
        symbol: symbol.to_string(),
        snapshot_update_id,
        timestamp: timestamp_ms,
        bids: encode_levels(bids),
        asks: encode_levels(asks),
    }
}

} // verus!
