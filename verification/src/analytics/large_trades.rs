//! Large-trade detection: a trade is large when its quantity is at or above
//! a configurable threshold.
use std::collections::VecDeque;
use vstd::prelude::*;

use crate::analytics::config::AnalyticsConfig;
use crate::analytics::events::{
    event_fields, json_from_string, json_from_u64, json_map_insert, json_map_new, json_object, no_entries,
    json_object_value, json_string, json_u64, AnalyticsEvent, AnalyticsEventKind,
};
use crate::text::{decimal_string, decimal_text};
use crate::trades::trade::{side_label, AggressorSide, TradeEvent};

verus! {

broadcast use vstd::std_specs::vecdeque::group_vec_dequeue_axioms;

/// How many recent large trades are kept for diagnostics.
pub const RECENT_LARGE_TRADES: usize = 512;

/// A detected large trade.
#[derive(Debug, Clone, Copy, PartialEq, Eq, Structural)]
pub struct LargeTrade {
    pub ts_ms: u64,
    pub price: u64,
    pub quantity: u64,
    pub side: AggressorSide,
    pub trade_id: u64,
    /// Exact notional `price_ticks * quantity_ticks`.
    pub notional_ticks: u128,
    pub threshold_ticks: u64,
}

/// The JSON evidence of a large trade: an object with its id, its exact
/// notional as decimal text and the threshold it reached.
pub open spec fn large_trade_json(trade_id: u64, notional_ticks: Seq<char>, threshold_ticks: u64) -> serde_json::Value {
    json_object(
        no_entries().insert("trade_id"@, json_u64(trade_id)).insert(
            "notional_ticks"@,
            json_string(notional_ticks),
        ).insert("threshold_ticks"@, json_u64(threshold_ticks)),
    )
}

/// The JSON evidence of a large trade.
fn large_trade_detail(trade_id: u64, notional_ticks: String, threshold_ticks: u64) -> (r:
    serde_json::Value)
    ensures
        r == large_trade_json(trade_id, notional_ticks@, threshold_ticks),
{
    let m = json_map_new();
    let m = json_map_insert(m, "trade_id".to_string(), json_from_u64(trade_id));
    let m = json_map_insert(m, "notional_ticks".to_string(), json_from_string(notional_ticks));
    let m = json_map_insert(m, "threshold_ticks".to_string(), json_from_u64(threshold_ticks));
    json_object_value(m)
}

/// Abstract state of a [`LargeTradeDetector`].
pub struct LargeTradeModel {
    pub threshold_ticks: u64,
    pub count: u64,
    /// Recent large trades, oldest first.
    pub recent: Seq<LargeTrade>,
}

/// The recent list after appending `t`, keeping the newest entries.
pub open spec fn recent_after(recent: Seq<LargeTrade>, t: LargeTrade) -> Seq<LargeTrade> {
    let s = recent.push(t);
    if s.len() > RECENT_LARGE_TRADES {
        s.drop_first()
    } else {
        s
    }
}

/// The large trade recorded for `trade` under `threshold`.
pub open spec fn large_trade_of(trade: TradeEvent, threshold: u64) -> LargeTrade {
    LargeTrade {
        ts_ms: trade.trade_time,
        price: trade.price_ticks,
        quantity: trade.quantity_ticks,
        side: trade.aggressor,
        trade_id: trade.trade_id,
        notional_ticks: (trade.price_ticks * trade.quantity_ticks) as u128,
        threshold_ticks: threshold,
    }
}

/// Large-trade detector.
pub struct LargeTradeDetector {
    threshold_ticks: u64,
    /// Number of large trades detected.
    count: u64,
    recent: VecDeque<LargeTrade>,
}

impl View for LargeTradeDetector {
    type V = LargeTradeModel;

    closed spec fn view(&self) -> LargeTradeModel {
        LargeTradeModel {
            threshold_ticks: self.threshold_ticks,
            count: self.count,
            recent: self.recent@,
        }
    }
}

impl LargeTradeDetector {
    pub fn new(cfg: &AnalyticsConfig) -> (r: Self)
        ensures
            r@ == (LargeTradeModel {
                threshold_ticks: cfg.large_trade_min_quantity_ticks,
                count: 0,
                recent: Seq::empty(),
            }),
            r@.recent.len() <= RECENT_LARGE_TRADES,
    {
        LargeTradeDetector {
            threshold_ticks: cfg.large_trade_min_quantity_ticks,
            count: 0,
            recent: VecDeque::new(),
        }
    }

    /// The quantity at or above which a trade is large.
    pub fn threshold_ticks(&self) -> (r: u64)
        ensures
            r == self@.threshold_ticks,
    {
        self.threshold_ticks
    }

    /// Check a trade; a trade at or above the threshold is counted, kept in
    /// the recent list and reported as a `LargeTrade` event.
    pub fn check(&mut self, trade: &TradeEvent) -> (r: Option<AnalyticsEvent>)
        requires
            old(self)@.count < u64::MAX,
            old(self)@.recent.len() <= RECENT_LARGE_TRADES,
        ensures
            final(self)@.recent.len() <= RECENT_LARGE_TRADES,
            trade.quantity_ticks < old(self)@.threshold_ticks ==> r is None && final(self)@ == old(
                self,
            )@,
            trade.quantity_ticks >= old(self)@.threshold_ticks ==> {
                &&& final(self)@ == LargeTradeModel {
                    count: (old(self)@.count + 1) as u64,
                    recent: recent_after(
                        old(self)@.recent,
                        large_trade_of(*trade, old(self)@.threshold_ticks),
                    ),
                    ..old(self)@
                }
                &&& r matches Some(e) && event_fields(
                    e,
                    AnalyticsEventKind::LargeTrade,
                    trade.trade_time,
                    trade.symbol@,
                    side_label(trade.aggressor),
                    trade.price_ticks,
                    trade.quantity_ticks,
                )
                &&& r matches Some(e) && e.detail == large_trade_json(
                    trade.trade_id,
                    decimal_text((trade.price_ticks * trade.quantity_ticks) as nat),
                    old(self)@.threshold_ticks,
                )
            },
    {
        if trade.quantity_ticks < self.threshold_ticks {
            return None;
        }
        self.count = self.count + 1;
        assert((trade.price_ticks as u128) * (trade.quantity_ticks as u128) <= u128::MAX)
            by (nonlinear_arith)
            requires
                trade.price_ticks <= u64::MAX,
                trade.quantity_ticks <= u64::MAX,
        ;
        let lt = LargeTrade {
            ts_ms: trade.trade_time,
            price: trade.price_ticks,
            quantity: trade.quantity_ticks,
            side: trade.aggressor,
            trade_id: trade.trade_id,
            notional_ticks: trade.price_ticks as u128 * trade.quantity_ticks as u128,
            threshold_ticks: self.threshold_ticks,
        };
        let ghost before = self@.recent;
        self.recent.push_back(lt);
        if self.recent.len() > RECENT_LARGE_TRADES {
            self.recent.pop_front();
            assert(self@.recent =~= before.push(lt).drop_first());
        }
        let detail = large_trade_detail(lt.trade_id, decimal_string(lt.notional_ticks), lt.threshold_ticks);
        let e = AnalyticsEvent::new(AnalyticsEventKind::LargeTrade, lt.ts_ms, trade.symbol.as_str())
            .with_side(lt.side.label()).with_price(lt.price).with_quantity(lt.quantity).with_detail(
            detail,
        );
        Some(e)
    }

    /// Large trades counted so far.
    pub fn count(&self) -> (r: u64)
        ensures
            r == self@.count,
    {
        self.count
    }

    /// The recent large trades, oldest first.
    pub fn recent_large_trades(&self) -> (r: Vec<LargeTrade>)
        ensures
            r@ == self@.recent,
    {
        let mut out: Vec<LargeTrade> = Vec::new();
        let mut i: usize = 0;
        while i < self.recent.len()
            invariant
                i <= self@.recent.len(),
                out@ == self@.recent.take(i as int),
            decreases self@.recent.len() - i,
        {
            out.push(self.recent[i]);
            proof {
                assert(out@ =~= self@.recent.take(i + 1));
            }
            i = i + 1;
        }
        proof {
            assert(self@.recent.take(self@.recent.len() as int) =~= self@.recent);
        }
        out
    }
}

} // verus!
