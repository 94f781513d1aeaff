//! The analytics engine's own state between two snapshots: interval
//! counters, the crossed-book anomaly state and the snapshot clock.
//!
//! The engine routes each market event to its trackers; what it keeps for
//! itself is integer bookkeeping, held here. An anomaly is raised once when
//! the book becomes crossed, not again while it stays crossed. A snapshot is
//! due on the first event and then whenever the event time has moved on by
//! the snapshot interval (at least 1 ms); taking one hands over the interval
//! counters and starts them afresh.
use vstd::prelude::*;

use crate::analytics::absorption::{
    extend_window, open_window, AbsorptionWindow, absorption_after_liquidity, absorption_after_opposing, absorption_liquidity_room, AbsorptionDetector,
    AbsorptionModel,
};
use crate::analytics::clusters::{
    add_trade, cluster_wf, fresh_cluster, has_room, joins, sat_sub, ClusterModel, ClusterTracker,
    TradeCluster,
};
use crate::analytics::config::AnalyticsConfig;
use crate::analytics::flow::{flow_after, flow_after_large, flow_room, flow_wf, fresh_flow, FlowModel, TradeFlow};
use crate::analytics::large_trades::{
    large_trade_json, large_trade_of, recent_after, LargeTradeDetector, LargeTradeModel,
    RECENT_LARGE_TRADES,
};
use crate::analytics::book::{
    book_side_label, crossed, snapshot_side, update_side, zero_levels, BookSide, LevelChange, ShadowBook,
    ShadowModel,
};
use crate::analytics::events::{
    json_from_string, json_map_insert, json_map_new, json_object, json_object_value, json_string,
    no_entries, AnalyticsEvent, AnalyticsEventKind,
};
use crate::analytics::heatmap::{
    after_touch, cell_after_level, cell_after_trade, touched, Heatmap, HeatmapCell, HeatmapModel,
};
use crate::analytics::liquidity::{
    added_amount, after_decrease, after_persistence, after_replenishment, change_event_kind, classify_spec,
    is_replenishment, old_or_zero, removed_amount, LiquidityChangeKind, LiquidityModel, LiquidityTracker,
};
use crate::orderbook::book::{is_max_key, is_min_key};
use crate::ordered_map::{is_top_asc, is_top_desc, sum_values};
use crate::text::decimal_text;
use crate::trades::trade::{side_label, AggressorSide, TradeEvent};

verus! {

/// Counters of one snapshot interval.
#[derive(Debug, Clone, Copy, PartialEq, Eq, Structural)]
pub struct IntervalTotals {
    pub trade_volume: u64,
    pub buy_volume: u64,
    pub sell_volume: u64,
    /// Buy minus sell volume.
    pub delta: i128,
    pub large_trade_count: u64,
    pub sweep_candidate_count: u64,
    pub absorption_candidate_count: u64,
    pub replenishment_count: u64,
    pub anomalies: u64,
    /// Whether the book was seen crossed during the interval.
    pub book_crossed: bool,
}

/// Counters at the start of an interval.
pub open spec fn empty_totals() -> IntervalTotals {
    IntervalTotals {
        trade_volume: 0,
        buy_volume: 0,
        sell_volume: 0,
        delta: 0,
        large_trade_count: 0,
        sweep_candidate_count: 0,
        absorption_candidate_count: 0,
        replenishment_count: 0,
        anomalies: 0,
        book_crossed: false,
    }
}

fn new_totals() -> (r: IntervalTotals)
    ensures
        r == empty_totals(),
{
    IntervalTotals {
        trade_volume: 0,
        buy_volume: 0,
        sell_volume: 0,
        delta: 0,
        large_trade_count: 0,
        sweep_candidate_count: 0,
        absorption_candidate_count: 0,
        replenishment_count: 0,
        anomalies: 0,
        book_crossed: false,
    }
}

/// What the engine keeps for itself.
pub struct EngineCoreModel {
    pub totals: IntervalTotals,
    pub last_event_ts: Option<u64>,
    pub last_snapshot_ts: Option<u64>,
    pub snapshot_interval_ms: u64,
}

/// The counters after a trade of `qty` on `side`.
pub open spec fn totals_after_trade(t: IntervalTotals, side: AggressorSide, qty: u64) -> IntervalTotals {
    match side {
        AggressorSide::Buy => IntervalTotals {
            trade_volume: (t.trade_volume + qty) as u64,
            buy_volume: (t.buy_volume + qty) as u64,
            delta: (t.delta + qty) as i128,
            ..t
        },
        AggressorSide::Sell => IntervalTotals {
            trade_volume: (t.trade_volume + qty) as u64,
            sell_volume: (t.sell_volume + qty) as u64,
            delta: (t.delta - qty) as i128,
            ..t
        },
    }
}

/// Whether a trade of `qty` on `side` fits the counters.
pub open spec fn core_trade_fits(t: IntervalTotals, side: AggressorSide, qty: u64) -> bool {
    &&& t.trade_volume + qty <= u64::MAX
    &&& side == AggressorSide::Buy ==> t.buy_volume + qty <= u64::MAX && t.delta + qty
        <= i128::MAX
    &&& side == AggressorSide::Sell ==> t.sell_volume + qty <= u64::MAX && t.delta - qty
        >= i128::MIN
}

/// Whether a snapshot is due at event time `ts`.
pub open spec fn snapshot_due_at(m: EngineCoreModel, ts: u64) -> bool {
    let interval: int = if m.snapshot_interval_ms == 0 {
        1
    } else {
        m.snapshot_interval_ms as int
    };
    match m.last_snapshot_ts {
        None => true,
        Some(last) => (if ts >= last {
            ts - last
        } else {
            0
        }) >= interval,
    }
}

/// The counters handed over by a snapshot: the interval's, with the book
/// also counted as crossed when it is crossed now.
pub open spec fn handed_over(t: IntervalTotals, crossed_now: bool) -> IntervalTotals {
    IntervalTotals { book_crossed: t.book_crossed || crossed_now, ..t }
}

/// The engine's own state.
pub struct EngineCore {
    totals: IntervalTotals,
    last_event_ts: Option<u64>,
    last_snapshot_ts: Option<u64>,
    snapshot_interval_ms: u64,
}

impl View for EngineCore {
    type V = EngineCoreModel;

    closed spec fn view(&self) -> EngineCoreModel {
        EngineCoreModel {
            totals: self.totals,
            last_event_ts: self.last_event_ts,
            last_snapshot_ts: self.last_snapshot_ts,
            snapshot_interval_ms: self.snapshot_interval_ms,
        }
    }
}

impl EngineCore {
    /// No event seen yet, no snapshot taken, empty counters.
    pub fn new(snapshot_interval_ms: u64) -> (r: Self)
        ensures
            r@ == (EngineCoreModel {
                totals: empty_totals(),
                last_event_ts: None,
                last_snapshot_ts: None,
                snapshot_interval_ms,
            }),
    {
        EngineCore {
            totals: new_totals(),
            last_event_ts: None,
            last_snapshot_ts: None,
            snapshot_interval_ms,
        }
    }

    /// The counters of the running interval.
    pub fn totals(&self) -> (r: IntervalTotals)
        ensures
            r == self@.totals,
    {
        self.totals
    }

    /// Time of the last trade or book update.
    pub fn last_event_ts(&self) -> (r: Option<u64>)
        ensures
            r == self@.last_event_ts,
    {
        self.last_event_ts
    }

    /// The engine's clock: the last event time, 0 before any.
    pub fn clock(&self) -> (r: u64)
        ensures
            r == (match self@.last_event_ts {
                Some(t) => t,
                None => 0,
            }),
    {
        match self.last_event_ts {
            Some(t) => t,
            None => 0,
        }
    }

    /// A book update at `ts` moves the clock.
    pub fn on_book_update(&mut self, ts: u64)
        ensures
            final(self)@ == (EngineCoreModel { last_event_ts: Some(ts), ..old(self)@ }),
    {
        self.last_event_ts = Some(ts);
    }

    /// A trade at `ts` moves the clock and adds to the interval volumes and
    /// delta.
    pub fn on_trade(&mut self, side: AggressorSide, qty: u64, ts: u64)
        requires
            core_trade_fits(old(self)@.totals, side, qty),
        ensures
            final(self)@ == (EngineCoreModel {
                totals: totals_after_trade(old(self)@.totals, side, qty),
                last_event_ts: Some(ts),
                ..old(self)@
            }),
    {
        self.last_event_ts = Some(ts);
        self.totals.trade_volume = self.totals.trade_volume + qty;
        match side {
            AggressorSide::Buy => {
                self.totals.buy_volume = self.totals.buy_volume + qty;
                self.totals.delta = self.totals.delta + qty as i128;
            },
            AggressorSide::Sell => {
                self.totals.sell_volume = self.totals.sell_volume + qty;
                self.totals.delta = self.totals.delta - qty as i128;
            },
        }
    }

    /// A large trade was reported.
    pub fn count_large_trade(&mut self)
        requires
            old(self)@.totals.large_trade_count < u64::MAX,
        ensures
            final(self)@ == (EngineCoreModel {
                totals: IntervalTotals {
                    large_trade_count: (old(self)@.totals.large_trade_count + 1) as u64,
                    ..old(self)@.totals
                },
                ..old(self)@
            }),
    {
        self.totals.large_trade_count = self.totals.large_trade_count + 1;
    }

    /// A sweep candidate was reported.
    pub fn count_sweep(&mut self)
        requires
            old(self)@.totals.sweep_candidate_count < u64::MAX,
        ensures
            final(self)@ == (EngineCoreModel {
                totals: IntervalTotals {
                    sweep_candidate_count: (old(self)@.totals.sweep_candidate_count + 1) as u64,
                    ..old(self)@.totals
                },
                ..old(self)@
            }),
    {
        self.totals.sweep_candidate_count = self.totals.sweep_candidate_count + 1;
    }

    /// An absorption candidate was reported.
    pub fn count_absorption(&mut self)
        requires
            old(self)@.totals.absorption_candidate_count < u64::MAX,
        ensures
            final(self)@ == (EngineCoreModel {
                totals: IntervalTotals {
                    absorption_candidate_count: (old(self)@.totals.absorption_candidate_count
                        + 1) as u64,
                    ..old(self)@.totals
                },
                ..old(self)@
            }),
    {
        self.totals.absorption_candidate_count = self.totals.absorption_candidate_count + 1;
    }

    /// A liquidity replenishment was reported.
    pub fn count_replenishment(&mut self)
        requires
            old(self)@.totals.replenishment_count < u64::MAX,
        ensures
            final(self)@ == (EngineCoreModel {
                totals: IntervalTotals {
                    replenishment_count: (old(self)@.totals.replenishment_count + 1) as u64,
                    ..old(self)@.totals
                },
                ..old(self)@
            }),
    {
        self.totals.replenishment_count = self.totals.replenishment_count + 1;
    }

    /// After a book snapshot: the crossed state is what the snapshot shows,
    /// and a crossed snapshot is an anomaly. Returns whether to report one.
    pub fn after_snapshot(&mut self, crossed: bool) -> (raise: bool)
        requires
            crossed ==> old(self)@.totals.anomalies < u64::MAX,
        ensures
            raise == crossed,
            final(self)@ == (EngineCoreModel {
                totals: IntervalTotals {
                    anomalies: (old(self)@.totals.anomalies + (if crossed {
                        1int
                    } else {
                        0int
                    })) as u64,
                    book_crossed: crossed,
                    ..old(self)@.totals
                },
                ..old(self)@
            }),
    {
        self.totals.book_crossed = crossed;
        if crossed {
            self.totals.anomalies = self.totals.anomalies + 1;
        }
        crossed
    }

    /// After a book update: an anomaly is raised when the book has just
    /// become crossed, not while it stays crossed. Returns whether to report
    /// one.
    pub fn after_update(&mut self, crossed: bool) -> (raise: bool)
        requires
            crossed && !old(self)@.totals.book_crossed ==> old(self)@.totals.anomalies < u64::MAX,
        ensures
            raise == (crossed && !old(self)@.totals.book_crossed),
            final(self)@ == (EngineCoreModel {
                totals: IntervalTotals {
                    anomalies: (old(self)@.totals.anomalies + (if raise {
                        1int
                    } else {
                        0int
                    })) as u64,
                    book_crossed: crossed,
                    ..old(self)@.totals
                },
                ..old(self)@
            }),
    {
        let raise = crossed && !self.totals.book_crossed;
        if raise {
            self.totals.anomalies = self.totals.anomalies + 1;
        }
        self.totals.book_crossed = crossed;
        raise
    }

    /// A lost connection is an anomaly, reported at the engine's clock.
    pub fn connection_lost(&mut self) -> (ts: u64)
        requires
            old(self)@.totals.anomalies < u64::MAX,
        ensures
            ts == (match old(self)@.last_event_ts {
                Some(t) => t,
                None => 0,
            }),
            final(self)@ == (EngineCoreModel {
                totals: IntervalTotals {
                    anomalies: (old(self)@.totals.anomalies + 1) as u64,
                    ..old(self)@.totals
                },
                ..old(self)@
            }),
    {
        self.totals.anomalies = self.totals.anomalies + 1;
        self.clock()
    }

    /// Whether a snapshot is due at event time `ts`.
    pub fn snapshot_due(&self, ts: u64) -> (r: bool)
        ensures
            r == snapshot_due_at(self@, ts),
    {
        let interval = if self.snapshot_interval_ms == 0 {
            1
        } else {
            self.snapshot_interval_ms
        };
        match self.last_snapshot_ts {
            None => true,
            Some(last) => ts.saturating_sub(last) >= interval,
        }
    }

    /// Takes a snapshot at `ts`: hands over the interval counters and starts
    /// new ones.
    pub fn take_interval(&mut self, ts: u64, crossed_now: bool) -> (r: IntervalTotals)
        ensures
            r == handed_over(old(self)@.totals, crossed_now),
            final(self)@ == (EngineCoreModel {
                totals: empty_totals(),
                last_snapshot_ts: Some(ts),
                ..old(self)@
            }),
    {
        let mut r = self.totals;
        r.book_crossed = r.book_crossed || crossed_now;
        self.totals = new_totals();
        self.last_snapshot_ts = Some(ts);
        r
    }

    /// Takes a snapshot at `ts` when one is due.
    pub fn finalize_due(&mut self, ts: u64, crossed_now: bool) -> (r: Option<IntervalTotals>)
        ensures
            snapshot_due_at(old(self)@, ts) ==> r == Some(handed_over(old(self)@.totals, crossed_now))
                && final(self)@ == (EngineCoreModel {
                totals: empty_totals(),
                last_snapshot_ts: Some(ts),
                ..old(self)@
            }),
            !snapshot_due_at(old(self)@, ts) ==> r is None && final(self)@ == old(self)@,
    {
        if self.snapshot_due(ts) {
            Some(self.take_interval(ts, crossed_now))
        } else {
            None
        }
    }

    /// Takes a snapshot at the last event time, if there was an event.
    pub fn force(&mut self, crossed_now: bool) -> (r: Option<(u64, IntervalTotals)>)
        ensures
            match old(self)@.last_event_ts {
                None => r is None && final(self)@ == old(self)@,
                Some(t) => r == Some((t, handed_over(old(self)@.totals, crossed_now)))
                    && final(self)@ == (EngineCoreModel {
                    totals: empty_totals(),
                    last_snapshot_ts: Some(t),
                    ..old(self)@
                }),
            },
    {
        match self.last_event_ts {
            None => None,
            Some(t) => {
                let totals = self.take_interval(t, crossed_now);
                Some((t, totals))
            },
        }
    }
}

/// A market event about the order book, as the engine receives it.
pub enum BookEvent {
    /// The order book is synchronized and live.
    Synchronized,
    /// The full book after a snapshot and its reconciliation.
    Snapshot { symbol: String, update_id: u64, bids: Vec<(u64, u64)>, asks: Vec<(u64, u64)> },
    /// A depth update: `(price, quantity, quantity hint)` per changed level.
    /// The hints are not trusted; old quantities come from the shadow book.
    Updated {
        symbol: String,
        update_id: u64,
        event_time_ms: u64,
        bid_changes: Vec<(u64, u64, Option<u64>)>,
        ask_changes: Vec<(u64, u64, Option<u64>)>,
    },
    /// Resynchronization started: the book is no longer live.
    ResyncStarted,
    /// Resynchronization completed.
    ResyncCompleted,
    /// The connection came up or went down.
    ConnectionChanged { symbol: String, connected: bool },
}

/// What an event is stated to carry; a detail of `None` is not stated.
pub struct EventDesc {
    pub kind: AnalyticsEventKind,
    pub ts_ms: u64,
    pub symbol: Seq<char>,
    pub side: Option<Seq<char>>,
    pub price: Option<u64>,
    pub quantity: u64,
    pub detail: Option<serde_json::Value>,
}

/// `e` carries what `d` states.
pub open spec fn describes(e: AnalyticsEvent, d: EventDesc) -> bool {
    &&& e.kind == d.kind
    &&& e.ts_ms == d.ts_ms
    &&& e.symbol@ == d.symbol
    &&& match d.side {
        Some(s) => e.side matches Some(t) && t@ == s,
        None => e.side is None,
    }
    &&& e.price == d.price
    &&& e.quantity == d.quantity
    &&& d.detail matches Some(v) ==> e.detail == v
}

/// Each event of `es` carries what the matching entry of `ds` states.
pub open spec fn describes_all(es: Seq<AnalyticsEvent>, ds: Seq<EventDesc>) -> bool {
    &&& es.len() == ds.len()
    &&& forall|i: int| 0 <= i < es.len() ==> describes(#[trigger] es[i], ds[i])
}

/// A liquidity event of the level change on `side` at `price`.
pub open spec fn level_desc(
    kind: AnalyticsEventKind,
    ts: u64,
    side: BookSide,
    price: u64,
    quantity: u64,
) -> EventDesc {
    EventDesc {
        kind,
        ts_ms: ts,
        symbol: "BTCUSDT"@,
        side: Some(book_side_label(side)),
        price: Some(price),
        quantity,
        detail: None,
    }
}

/// The JSON evidence of an anomaly: `{"reason": reason}`.
pub open spec fn reason_json(reason: Seq<char>) -> serde_json::Value {
    json_object(no_entries().insert("reason"@, json_string(reason)))
}

/// A book anomaly at `ts` with its reason.
pub open spec fn anomaly_desc(ts: u64, symbol: Seq<char>, reason: Seq<char>) -> EventDesc {
    EventDesc {
        kind: AnalyticsEventKind::BookAnomaly,
        ts_ms: ts,
        symbol,
        side: None,
        price: None,
        quantity: 0,
        detail: Some(reason_json(reason)),
    }
}

/// The state of the engine's book-side trackers.
pub struct EngineModel {
    pub book: ShadowModel,
    pub liquidity: LiquidityModel,
    pub heatmap: HeatmapModel,
    pub absorption: AbsorptionModel,
    pub core: EngineCoreModel,
    pub flow: FlowModel,
    pub large: LargeTradeModel,
    pub clusters: ClusterModel,
    /// Levels per side summed as the opposing liquidity of absorption.
    pub depth: u32,
}

/// Whether the change `c` at `ts` is reported as a replenishment.
pub open spec fn replenishes(o: LiquidityModel, c: LevelChange, ts: u64) -> bool {
    classify_spec(c.old_qty, c.new_qty) != LiquidityChangeKind::Unchanged && is_replenishment(
        after_decrease(o.decreases, c, ts),
        c,
        ts,
        o.window_ms,
    )
}

/// The liquidity tracker after the change `c` at `ts`.
pub open spec fn liquidity_after(o: LiquidityModel, c: LevelChange, ts: u64) -> LiquidityModel {
    if classify_spec(c.old_qty, c.new_qty) == LiquidityChangeKind::Unchanged {
        o
    } else {
        let d1 = after_decrease(o.decreases, c, ts);
        LiquidityModel {
            added: (o.added + added_amount(c)) as u64,
            removed: (o.removed + removed_amount(c)) as u64,
            replenishments: (o.replenishments + if replenishes(o, c, ts) {
                1int
            } else {
                0int
            }) as u64,
            decreases: after_replenishment(d1, c, ts, o.window_ms),
            levels: after_persistence(o.levels, c, ts),
            window_ms: o.window_ms,
            retention_ms: o.retention_ms,
        }
    }
}

/// The events the liquidity tracker reports for the change `c` at `ts`.
pub open spec fn liquidity_events(o: LiquidityModel, c: LevelChange, ts: u64) -> Seq<EventDesc> {
    let kind = classify_spec(c.old_qty, c.new_qty);
    if kind == LiquidityChangeKind::Unchanged {
        Seq::empty()
    } else {
        let first = level_desc(
            change_event_kind(kind),
            ts,
            c.side,
            c.price,
            (added_amount(c) + removed_amount(c)) as u64,
        );
        if replenishes(o, c, ts) {
            seq![
                first,
                level_desc(AnalyticsEventKind::LiquidityReplenishment, ts, c.side, c.price, c.new_qty),
            ]
        } else {
            seq![first]
        }
    }
}

/// The heatmap after a level change: the touched cell's resting liquidity.
pub open spec fn heatmap_after_level(h: HeatmapModel, c: LevelChange, ts: u64) -> HeatmapModel {
    after_touch(h, ts, c.price, cell_after_level(touched(h, ts, c.price), c.side, c.new_qty))
}

/// The heatmap after counting a replenishment at (`ts`, `price`).
pub open spec fn heatmap_after_replenishment(h: HeatmapModel, price: u64, ts: u64) -> HeatmapModel {
    let c = touched(h, ts, price);
    after_touch(h, ts, price, HeatmapCell { replenishment_count: (c.replenishment_count + 1) as u64, ..c })
}

/// One shadow-book level change routed through the trackers: the liquidity
/// tracker, the heatmap's resting liquidity, the absorption windows
/// (replenishment on an increase, then the opposing level), and for a
/// replenishment the heatmap cell and the interval counter.
pub open spec fn change_step(m: EngineModel, c: LevelChange, ts: u64) -> EngineModel {
    let a1 = if c.new_qty > old_or_zero(c) {
        absorption_after_liquidity(m.absorption, c.price, c.new_qty, ts)
    } else {
        m.absorption
    };
    let h1 = heatmap_after_level(m.heatmap, c, ts);
    let rep = replenishes(m.liquidity, c, ts);
    EngineModel {
        liquidity: liquidity_after(m.liquidity, c, ts),
        heatmap: if rep {
            heatmap_after_replenishment(h1, c.price, ts)
        } else {
            h1
        },
        absorption: absorption_after_opposing(a1, c.price, c.new_qty, ts),
        core: if rep {
            EngineCoreModel {
                totals: IntervalTotals {
                    replenishment_count: (m.core.totals.replenishment_count + 1) as u64,
                    ..m.core.totals
                },
                ..m.core
            }
        } else {
            m.core
        },
        ..m
    }
}

/// Every counter that routing the change `c` raises has room.
pub open spec fn change_fits(m: EngineModel, c: LevelChange, ts: u64) -> bool {
    let cell = touched(m.heatmap, ts, c.price);
    let rep = replenishes(m.liquidity, c, ts);
    &&& m.liquidity.added + added_amount(c) <= u64::MAX
    &&& m.liquidity.removed + removed_amount(c) <= u64::MAX
    &&& rep ==> m.liquidity.replenishments < u64::MAX
    &&& cell.liquidity_added + c.new_qty <= u64::MAX
    &&& cell.liquidity_removed + (if c.side == BookSide::Bid {
        cell.resting_bid_liquidity
    } else {
        cell.resting_ask_liquidity
    }) <= u64::MAX
    &&& c.new_qty > old_or_zero(c) ==> absorption_liquidity_room(
        m.absorption,
        c.price,
        c.new_qty,
        ts,
    )
    &&& rep ==> cell.replenishment_count < u64::MAX && m.core.totals.replenishment_count
        < u64::MAX
}

/// The trackers after the changes `cs`, in order.
pub open spec fn changes_after(m: EngineModel, cs: Seq<LevelChange>, ts: u64) -> EngineModel
    decreases cs.len(),
{
    if cs.len() == 0 {
        m
    } else {
        change_step(changes_after(m, cs.drop_last(), ts), cs.last(), ts)
    }
}

/// The events of the changes `cs`, in order.
pub open spec fn changes_events(m: EngineModel, cs: Seq<LevelChange>, ts: u64) -> Seq<EventDesc>
    decreases cs.len(),
{
    if cs.len() == 0 {
        Seq::empty()
    } else {
        changes_events(m, cs.drop_last(), ts) + liquidity_events(
            changes_after(m, cs.drop_last(), ts).liquidity,
            cs.last(),
            ts,
        )
    }
}

/// Every change of `cs` finds room when it comes.
pub open spec fn changes_fit(m: EngineModel, cs: Seq<LevelChange>, ts: u64) -> bool {
    forall|i: int|
        0 <= i < cs.len() ==> change_fits(#[trigger] changes_after(m, cs.take(i), ts), cs[i], ts)
}

/// The trackers after a snapshot is loaded into the shadow book.
pub open spec fn snapshot_loaded(m: EngineModel, update_id: u64, bids: Seq<(u64, u64)>, asks: Seq<(u64, u64)>) -> ShadowModel {
    ShadowModel {
        bids: snapshot_side(bids),
        asks: snapshot_side(asks),
        ready: true,
        last_update_id: Some(update_id),
        invalid_levels_rejected: (m.book.invalid_levels_rejected + zero_levels(bids) + zero_levels(
            asks,
        )) as u64,
        ..m.book
    }
}

/// The shadow book after a depth update, and the level changes it reports
/// (bids first).
pub open spec fn book_updated(
    b: ShadowModel,
    update_id: u64,
    bid_changes: Seq<(u64, u64, Option<u64>)>,
    ask_changes: Seq<(u64, u64, Option<u64>)>,
) -> (ShadowModel, Seq<LevelChange>) {
    let ub = update_side(b.bids, bid_changes, BookSide::Bid);
    let ua = update_side(b.asks, ask_changes, BookSide::Ask);
    (ShadowModel { bids: ub.0, asks: ua.0, last_update_id: Some(update_id), ..b }, ub.1 + ua.1)
}

/// The liquidity tracker with its level state and interval totals cleared.
pub open spec fn liquidity_cleared(l: LiquidityModel) -> LiquidityModel {
    LiquidityModel { added: 0, removed: 0, levels: Map::empty(), decreases: Map::empty(), ..l }
}

/// The crossed count raised by one when `raise`.
pub open spec fn count_crossed(b: ShadowModel, raise: bool) -> ShadowModel {
    if raise {
        ShadowModel { crossed_count: (b.crossed_count + 1) as u64, ..b }
    } else {
        b
    }
}

/// The anomaly counter and crossed state after checking the book.
pub open spec fn core_crossed(c: EngineCoreModel, crossed_now: bool, raise: bool) -> EngineCoreModel {
    EngineCoreModel {
        totals: IntervalTotals {
            anomalies: (c.totals.anomalies + (if raise {
                1int
            } else {
                0int
            })) as u64,
            book_crossed: crossed_now,
            ..c.totals
        },
        ..c
    }
}

/// The trackers after the update's level changes, before the crossed check.
pub open spec fn update_routed(
    m: EngineModel,
    update_id: u64,
    ts: u64,
    bid_changes: Seq<(u64, u64, Option<u64>)>,
    ask_changes: Seq<(u64, u64, Option<u64>)>,
) -> EngineModel {
    let u = book_updated(m.book, update_id, bid_changes, ask_changes);
    changes_after(
        EngineModel { book: u.0, core: EngineCoreModel { last_event_ts: Some(ts), ..m.core }, ..m },
        u.1,
        ts,
    )
}

/// What one book event does to the trackers, and the events it reports.
///
/// A snapshot replaces the shadow book, clears the liquidity tracker and
/// raises an anomaly when the book is crossed. An update moves the clock,
/// applies the levels to the shadow book and routes each changed level,
/// then raises an anomaly when the book has just become crossed. A resync
/// takes the book down and clears the liquidity tracker. A lost connection
/// is an anomaly at the engine's clock.
pub open spec fn book_step(m: EngineModel, ev: BookEvent) -> (EngineModel, Seq<EventDesc>) {
    match ev {
        BookEvent::Synchronized => (
            EngineModel { book: ShadowModel { ready: true, ..m.book }, ..m },
            Seq::empty(),
        ),
        BookEvent::Snapshot { symbol, update_id, bids, asks } => {
            let b1 = snapshot_loaded(m, update_id, bids@, asks@);
            let cr = crossed(b1.bids, b1.asks);
            (
                EngineModel {
                    book: count_crossed(b1, cr),
                    liquidity: liquidity_cleared(m.liquidity),
                    core: core_crossed(m.core, cr, cr),
                    ..m
                },
                if cr {
                    seq![anomaly_desc(update_id, symbol@, "crossed book after snapshot"@)]
                } else {
                    Seq::empty()
                },
            )
        },
        BookEvent::Updated { symbol, update_id, event_time_ms, bid_changes, ask_changes } => {
            let u = book_updated(m.book, update_id, bid_changes@, ask_changes@);
            let m1 = EngineModel {
                book: u.0,
                core: EngineCoreModel { last_event_ts: Some(event_time_ms), ..m.core },
                ..m
            };
            let m2 = changes_after(m1, u.1, event_time_ms);
            let cr = crossed(m2.book.bids, m2.book.asks);
            let raise = cr && !m2.core.totals.book_crossed;
            (
                EngineModel {
                    book: count_crossed(m2.book, raise),
                    core: core_crossed(m2.core, cr, raise),
                    ..m2
                },
                changes_events(m1, u.1, event_time_ms) + if raise {
                    seq![anomaly_desc(update_id, symbol@, "crossed book after update"@)]
                } else {
                    Seq::empty()
                },
            )
        },
        BookEvent::ResyncStarted => (
            EngineModel {
                book: ShadowModel { ready: false, bids: Map::empty(), asks: Map::empty(), ..m.book },
                liquidity: liquidity_cleared(m.liquidity),
                ..m
            },
            Seq::empty(),
        ),
        BookEvent::ResyncCompleted => (m, Seq::empty()),
        BookEvent::ConnectionChanged { symbol, connected } => {
            if connected {
                (m, Seq::empty())
            } else {
                let ts = match m.core.last_event_ts {
                    Some(t) => t,
                    None => 0,
                };
                (
                    EngineModel {
                        core: EngineCoreModel {
                            totals: IntervalTotals {
                                anomalies: (m.core.totals.anomalies + 1) as u64,
                                ..m.core.totals
                            },
                            ..m.core
                        },
                        ..m
                    },
                    seq![anomaly_desc(ts, symbol@, "connection lost"@)],
                )
            }
        },
    }
}

/// Every counter that the book event raises has room.
pub open spec fn book_event_fits(m: EngineModel, ev: BookEvent) -> bool {
    match ev {
        BookEvent::Snapshot { update_id, bids, asks, .. } => {
            let b1 = snapshot_loaded(m, update_id, bids@, asks@);
            let cr = crossed(b1.bids, b1.asks);
            &&& m.book.invalid_levels_rejected + zero_levels(bids@) + zero_levels(asks@) <= u64::MAX
            &&& cr ==> m.core.totals.anomalies < u64::MAX && m.book.crossed_count < u64::MAX
        },
        BookEvent::Updated { update_id, event_time_ms, bid_changes, ask_changes, .. } => {
            let u = book_updated(m.book, update_id, bid_changes@, ask_changes@);
            let m1 = EngineModel {
                book: u.0,
                core: EngineCoreModel { last_event_ts: Some(event_time_ms), ..m.core },
                ..m
            };
            let m2 = changes_after(m1, u.1, event_time_ms);
            let raise = crossed(m2.book.bids, m2.book.asks) && !m2.core.totals.book_crossed;
            &&& changes_fit(m1, u.1, event_time_ms)
            &&& raise ==> m2.core.totals.anomalies < u64::MAX && m2.book.crossed_count < u64::MAX
        },
        BookEvent::ConnectionChanged { connected, .. } => connected || m.core.totals.anomalies
            < u64::MAX,
        _ => true,
    }
}

/// The heatmap after a trade: the touched cell's executed volume, delta,
/// trade count and pressure.
pub open spec fn heatmap_after_trade(h: HeatmapModel, t: TradeEvent) -> HeatmapModel {
    after_touch(
        h,
        t.trade_time,
        t.price_ticks,
        cell_after_trade(touched(h, t.trade_time, t.price_ticks), t.quantity_ticks, t.aggressor),
    )
}

/// Room in the touched cell for a trade.
pub open spec fn heatmap_trade_room(h: HeatmapModel, t: TradeEvent) -> bool {
    let c = touched(h, t.trade_time, t.price_ticks);
    let q = t.quantity_ticks;
    &&& c.trade_count < u64::MAX
    &&& c.executed_buy_volume + q <= u64::MAX
    &&& c.executed_sell_volume + q <= u64::MAX
    &&& i128::MIN + q <= c.delta <= i128::MAX - q
    &&& i128::MIN + q <= c.pressure <= i128::MAX - q
}

/// The heatmap after a large trade's volume is added to its cell.
pub open spec fn heatmap_after_large(h: HeatmapModel, t: TradeEvent) -> HeatmapModel {
    let c = touched(h, t.trade_time, t.price_ticks);
    after_touch(
        h,
        t.trade_time,
        t.price_ticks,
        HeatmapCell { large_trade_volume: (c.large_trade_volume + t.quantity_ticks) as u64, ..c },
    )
}

/// The cluster tracker after a trade: it joins the open cluster, or closes
/// it and opens a new one.
pub open spec fn clusters_after(o: ClusterModel, t: TradeEvent) -> ClusterModel {
    let joined = joins(o.open, t, o.window_ms, o.price_range_ticks);
    let base = if joined {
        o.open.unwrap()
    } else {
        fresh_cluster(t)
    };
    ClusterModel {
        open: Some(add_trade(base, t)),
        closed: if !joined && o.open is Some {
            o.closed.push(o.open.unwrap())
        } else {
            o.closed
        },
        ..o
    }
}

/// The cluster a trade closes, if any.
pub open spec fn cluster_closed(o: ClusterModel, t: TradeEvent) -> Option<TradeCluster> {
    if joins(o.open, t, o.window_ms, o.price_range_ticks) {
        None
    } else {
        o.open
    }
}

/// Whether a trade is fed to the absorption windows: the shadow book is
/// live, not crossed, and has a level on the passive side.
pub open spec fn absorption_fed(b: ShadowModel, side: AggressorSide) -> bool {
    &&& b.ready
    &&& !crossed(b.bids, b.asks)
    &&& if side == AggressorSide::Buy {
        !b.bids.dom().is_empty()
    } else {
        !b.asks.dom().is_empty()
    }
}

/// `ai` is the (best passive price, opposing liquidity) fed to absorption:
/// for a buy the best bid and the top asks' total, for a sell the best ask
/// and the top bids' total (the top `depth` levels, both of which must fit).
pub open spec fn absorption_input(
    b: ShadowModel,
    side: AggressorSide,
    depth: nat,
    ai: Option<(u64, u64)>,
) -> bool {
    if !(b.ready && !crossed(b.bids, b.asks)) {
        ai is None
    } else {
        exists|rb: Seq<(u64, u64)>, ra: Seq<(u64, u64)>, best: Option<u64>|
            #![trigger is_top_desc(b.bids, rb, depth), is_top_asc(b.asks, ra, depth), is_max_key(b.bids, best)]
            #![trigger is_top_desc(b.bids, rb, depth), is_top_asc(b.asks, ra, depth), is_min_key(b.asks, best)]
            {
                &&& is_top_desc(b.bids, rb, depth)
                &&& is_top_asc(b.asks, ra, depth)
                &&& sum_values(rb) <= u64::MAX
                &&& sum_values(ra) <= u64::MAX
                &&& if side == AggressorSide::Buy {
                    is_max_key(b.bids, best)
                } else {
                    is_min_key(b.asks, best)
                }
                &&& ai == match best {
                    Some(x) => Some(
                        (
                            x,
                            if side == AggressorSide::Buy {
                                sum_values(ra) as u64
                            } else {
                                sum_values(rb) as u64
                            },
                        ),
                    ),
                    None => None,
                }
            }
    }
}

/// The top levels of a side sum past `u64::MAX`.
pub open spec fn depth_overflows(b: ShadowModel, depth: nat) -> bool {
    exists|rb: Seq<(u64, u64)>, ra: Seq<(u64, u64)>|
        #![trigger is_top_desc(b.bids, rb, depth), is_top_asc(b.asks, ra, depth)]
        is_top_desc(b.bids, rb, depth) && is_top_asc(b.asks, ra, depth) && (sum_values(rb)
            > u64::MAX || sum_values(ra) > u64::MAX)
}

/// The absorption windows after a trade fed with the passive best price
/// `best` and opposing liquidity `opp`, and the window it closes, if any.
pub open spec fn absorption_after_trade(
    a: AbsorptionModel,
    t: TradeEvent,
    best: u64,
    opp: u64,
) -> (AbsorptionModel, Option<AbsorptionWindow>) {
    let p = t.price_ticks;
    if !a.windows.contains_key(p) {
        (AbsorptionModel { windows: a.windows.insert(p, open_window(t, best, opp)), ..a }, None)
    } else if sat_sub(t.trade_time, a.windows[p].open_ms) > a.window_ms {
        (AbsorptionModel { windows: a.windows.remove(p), ..a }, Some(a.windows[p]))
    } else {
        (
            AbsorptionModel { windows: a.windows.insert(p, extend_window(a.windows[p], t, best)), ..a },
            None,
        )
    }
}

/// Room in the trade's absorption window, if it extends one.
pub open spec fn absorption_trade_room(a: AbsorptionModel, t: TradeEvent) -> bool {
    a.windows.contains_key(t.price_ticks) && sat_sub(
        t.trade_time,
        a.windows[t.price_ticks].open_ms,
    ) <= a.window_ms ==> {
        let w = a.windows[t.price_ticks];
        &&& w.trade_count < u64::MAX
        &&& w.aggressive_volume + t.quantity_ticks <= u64::MAX
    }
}

/// The trade's own event.
pub open spec fn trade_delta_desc(t: TradeEvent) -> EventDesc {
    EventDesc {
        kind: AnalyticsEventKind::TradeDelta,
        ts_ms: t.trade_time,
        symbol: t.symbol@,
        side: Some(side_label(t.aggressor)),
        price: Some(t.price_ticks),
        quantity: t.quantity_ticks,
        detail: None,
    }
}

/// The large-trade event of a trade.
pub open spec fn large_trade_desc(t: TradeEvent, threshold: u64) -> EventDesc {
    EventDesc {
        kind: AnalyticsEventKind::LargeTrade,
        ts_ms: t.trade_time,
        symbol: t.symbol@,
        side: Some(side_label(t.aggressor)),
        price: Some(t.price_ticks),
        quantity: t.quantity_ticks,
        detail: Some(
            large_trade_json(
                t.trade_id,
                decimal_text((t.price_ticks * t.quantity_ticks) as nat),
                threshold,
            ),
        ),
    }
}

/// The trackers between the flow/heatmap/counter updates and the large
/// trade check.
pub open spec fn after_trade_counters(m: EngineModel, t: TradeEvent) -> EngineModel {
    EngineModel {
        heatmap: heatmap_after_trade(m.heatmap, t),
        flow: flow_after(m.flow, t),
        core: EngineCoreModel {
            totals: totals_after_trade(m.core.totals, t.aggressor, t.quantity_ticks),
            last_event_ts: Some(t.trade_time),
            ..m.core
        },
        ..m
    }
}

/// The trackers after the large-trade check.
pub open spec fn after_large_check(m: EngineModel, t: TradeEvent) -> EngineModel {
    let m1 = after_trade_counters(m, t);
    if t.quantity_ticks >= m.large.threshold_ticks {
        EngineModel {
            large: LargeTradeModel {
                count: (m.large.count + 1) as u64,
                recent: recent_after(m.large.recent, large_trade_of(t, m.large.threshold_ticks)),
                ..m.large
            },
            core: EngineCoreModel {
                totals: IntervalTotals {
                    large_trade_count: (m1.core.totals.large_trade_count + 1) as u64,
                    ..m1.core.totals
                },
                ..m1.core
            },
            flow: flow_after_large(m1.flow, t.price_ticks),
            heatmap: heatmap_after_large(m1.heatmap, t),
            ..m1
        }
    } else {
        m1
    }
}

/// A counter that the trade raises has no room.
pub open spec fn trade_counters_blocked(m: EngineModel, t: TradeEvent) -> bool {
    let m1 = after_trade_counters(m, t);
    let large = t.quantity_ticks >= m.large.threshold_ticks;
    let m2 = after_large_check(m, t);
    !{
        &&& heatmap_trade_room(m.heatmap, t)
        &&& flow_room(m.flow, t.price_ticks, t.quantity_ticks, t.trade_time)
        &&& core_trade_fits(m.core.totals, t.aggressor, t.quantity_ticks)
        &&& large ==> {
            &&& m.large.count < u64::MAX
            &&& m1.flow.volume_by_price.contains_key(t.price_ticks)
                ==> m1.flow.volume_by_price[t.price_ticks].large_trade_count < u64::MAX
            &&& touched(m1.heatmap, t.trade_time, t.price_ticks).large_trade_volume
                + t.quantity_ticks <= u64::MAX
            &&& m1.core.totals.large_trade_count < u64::MAX
        }
        &&& joins(m.clusters.open, t, m.clusters.window_ms, m.clusters.price_range_ticks)
            ==> has_room(m.clusters.open.unwrap(), t.quantity_ticks)
        &&& absorption_fed(m2.book, t.aggressor) ==> absorption_trade_room(m2.absorption, t)
    }
}

/// What a trade does, given the absorption input `ai`: the trackers, the
/// events it reports, the cluster it closes and the absorption window it
/// closes. Scoring the cluster as a sweep and the window as absorption is
/// left to the caller (`accept_sweep`, `accept_absorption`).
pub open spec fn trade_step(m: EngineModel, t: TradeEvent, ai: Option<(u64, u64)>) -> (
    EngineModel,
    Seq<EventDesc>,
    Option<TradeCluster>,
    Option<AbsorptionWindow>,
) {
    let m2 = after_large_check(m, t);
    let large = t.quantity_ticks >= m.large.threshold_ticks;
    let m3 = EngineModel { clusters: clusters_after(m2.clusters, t), ..m2 };
    let abs = match ai {
        Some((best, opp)) => absorption_after_trade(m3.absorption, t, best, opp),
        None => (m3.absorption, None),
    };
    (
        EngineModel { absorption: abs.0, ..m3 },
        if large {
            seq![trade_delta_desc(t), large_trade_desc(t, m.large.threshold_ticks)]
        } else {
            seq![trade_delta_desc(t)]
        },
        cluster_closed(m2.clusters, t),
        abs.1,
    )
}

/// What a trade hands back: its events, the cluster it closed and the
/// absorption window it closed (to be scored by the caller).
pub struct TradeStep {
    pub events: Vec<AnalyticsEvent>,
    pub cluster: Option<TradeCluster>,
    pub window: Option<AbsorptionWindow>,
}

/// The engine's book-side trackers: its own shadow book (never the hints
/// carried on an event), liquidity changes, the heatmap, absorption windows
/// and the engine's counters and clock. Only exchange times are used.
pub struct EngineState {
    pub book: ShadowBook,
    pub liquidity: LiquidityTracker,
    pub heatmap: Heatmap,
    pub absorption: AbsorptionDetector,
    pub core: EngineCore,
    pub flow: TradeFlow,
    pub large_trades: LargeTradeDetector,
    pub clusters: ClusterTracker,
    pub depth: u32,
}

impl View for EngineState {
    type V = EngineModel;

    open spec fn view(&self) -> EngineModel {
        EngineModel {
            book: self.book@,
            liquidity: self.liquidity@,
            heatmap: self.heatmap@,
            absorption: self.absorption@,
            core: self.core@,
            flow: self.flow@,
            large: self.large_trades@,
            clusters: self.clusters@,
            depth: self.depth,
        }
    }
}

/// An anomaly event with its reason.
fn anomaly_event(ts: u64, symbol: &str, reason: &str) -> (r: AnalyticsEvent)
    ensures
        describes(r, anomaly_desc(ts, symbol@, reason@)),
{
    let m = json_map_new();
    let m = json_map_insert(m, "reason".to_string(), json_from_string(reason.to_string()));
    AnalyticsEvent::new(AnalyticsEventKind::BookAnomaly, ts, symbol).with_detail(json_object_value(m))
}

proof fn lemma_describes_append(es: Seq<AnalyticsEvent>, ds: Seq<EventDesc>, fs: Seq<AnalyticsEvent>, gs: Seq<EventDesc>)
    requires
        describes_all(es, ds),
        describes_all(fs, gs),
    ensures
        describes_all(es + fs, ds + gs),
{
    assert forall|i: int| 0 <= i < (es + fs).len() implies describes(#[trigger] (es + fs)[i], (ds + gs)[i]) by {
        if i < es.len() {
            assert((es + fs)[i] == es[i]);
        } else {
            assert((es + fs)[i] == fs[i - es.len()]);
        }
    }
}

impl EngineState {
    /// The trackers are usable: heatmap cells have a positive width.
    pub open spec fn wf(&self) -> bool {
        &&& self.heatmap@.cell_ms > 0
        &&& self.heatmap@.price_aggregation > 0
        &&& flow_wf(self.flow@)
        &&& self.large_trades@.recent.len() <= RECENT_LARGE_TRADES
        &&& self.clusters@.open matches Some(c) ==> cluster_wf(c)
    }

    /// Fresh trackers for the configuration: an empty shadow book that is
    /// not live, no liquidity state, an empty heatmap, no absorption window
    /// and empty counters.
    pub fn new(cfg: &AnalyticsConfig) -> (r: Self)
        requires
            cfg.heatmap_cell_ms > 0,
            forall|i: int|
                0 <= i < cfg.aggregation_intervals_ms@.len() ==> #[trigger] cfg.aggregation_intervals_ms@[i]
                    > 0,
        ensures
            r.wf(),
            r@.flow == fresh_flow(cfg.aggregation_intervals_ms@, cfg.retention_ms),
            r@.large == (LargeTradeModel {
                threshold_ticks: cfg.large_trade_min_quantity_ticks,
                count: 0,
                recent: Seq::empty(),
            }),
            r@.clusters.open is None,
            r@.clusters.closed.len() == 0,
            r@.depth == cfg.imbalance_depth,
            r@.book == (ShadowModel {
                bids: Map::empty(),
                asks: Map::empty(),
                ready: false,
                last_update_id: None,
                crossed_count: 0,
                invalid_levels_rejected: 0,
            }),
            r@.liquidity == (LiquidityModel {
                added: 0,
                removed: 0,
                replenishments: 0,
                levels: Map::empty(),
                decreases: Map::empty(),
                window_ms: cfg.replenishment_window_ms,
                retention_ms: cfg.retention_ms,
            }),
            r@.heatmap.buckets == Map::<u64, Map<u64, HeatmapCell>>::empty(),
            r@.heatmap.cell_ms == cfg.heatmap_cell_ms,
            r@.heatmap.retention_ms == cfg.retention_ms,
            r@.heatmap.price_aggregation == 1,
            r@.heatmap.tick_size_ticks == cfg.tick_size_ticks,
            r@.absorption == (AbsorptionModel {
                window_ms: cfg.absorption_window_ms,
                min_trades: cfg.absorption_min_trades,
                min_volume_ticks: cfg.absorption_min_volume_ticks,
                max_excursion_ticks: cfg.absorption_max_excursion_ticks,
                tick_size_ticks: cfg.tick_size_ticks,
                windows: Map::empty(),
                count: 0,
            }),
            r@.core == (EngineCoreModel {
                totals: empty_totals(),
                last_event_ts: None,
                last_snapshot_ts: None,
                snapshot_interval_ms: cfg.snapshot_interval_ms,
            }),
    {
        EngineState {
            book: ShadowBook::new(),
            liquidity: LiquidityTracker::new(cfg),
            heatmap: Heatmap::new(cfg),
            absorption: AbsorptionDetector::new(cfg),
            core: EngineCore::new(cfg.snapshot_interval_ms),
            flow: TradeFlow::new(cfg.aggregation_intervals_ms.clone(), cfg.retention_ms),
            large_trades: LargeTradeDetector::new(cfg),
            clusters: ClusterTracker::new(cfg),
            depth: cfg.imbalance_depth,
        }
    }

    /// Route one shadow-book level change at `ts`, when every counter it
    /// raises has room; the tracker's events go to `out`.
    fn route_change(&mut self, c: &LevelChange, ts: u64, out: &mut Vec<AnalyticsEvent>) -> (ok: bool)
        requires
            old(self).wf(),
        ensures
            final(self).wf(),
            ok == change_fits(old(self)@, *c, ts),
            ok ==> final(self)@ == change_step(old(self)@, *c, ts) && exists|evs: Seq<AnalyticsEvent>|
                final(out)@ == old(out)@ + evs && describes_all(
                    evs,
                    liquidity_events(old(self)@.liquidity, *c, ts),
                ),
            !ok ==> final(self)@ == old(self)@ && final(out)@ == old(out)@,
    {
        let ghost m = self@;
        let old_qty: u64 = match c.old_qty {
            Some(o) => o,
            None => 0,
        };
        let liq_room = if c.new_qty > old_qty {
            self.liquidity.added_ticks() as u128 + (c.new_qty - old_qty) as u128 <= u64::MAX as u128
        } else {
            self.liquidity.removed_ticks() as u128 + (old_qty - c.new_qty) as u128 <= u64::MAX as u128
        };
        assert(liq_room == (m.liquidity.added + added_amount(*c) <= u64::MAX && m.liquidity.removed
            + removed_amount(*c) <= u64::MAX));
        let rep = self.liquidity.would_replenish(c, ts);
        let cell = self.heatmap.touched_cell(ts, c.price);
        let resting = match c.side {
            BookSide::Bid => cell.resting_bid_liquidity,
            BookSide::Ask => cell.resting_ask_liquidity,
        };
        let cell_room = cell.liquidity_added as u128 + c.new_qty as u128 <= u64::MAX as u128
            && cell.liquidity_removed as u128 + resting as u128 <= u64::MAX as u128;
        let abs_room = if c.new_qty > old_qty {
            self.absorption.has_liquidity_room(c.price, c.new_qty, ts)
        } else {
            true
        };
        let rep_room = !rep || (self.liquidity.replenishment_count() < u64::MAX
            && cell.replenishment_count < u64::MAX && self.core.totals().replenishment_count
            < u64::MAX);
        if !(liq_room && cell_room && abs_room && rep_room) {
            return false;
        }
        let mut evs = self.liquidity.on_level_change(c, ts);
        let ghost evs0 = evs@;
        self.heatmap.on_level_change(c, ts);
        if c.new_qty > old_qty {
            self.absorption.on_liquidity_change(c.price, c.new_qty, ts);
        }
        self.absorption.on_opposing_liquidity(c.price, c.new_qty, ts);
        if rep {
            assert(touched(self@.heatmap, ts, c.price).replenishment_count == cell.replenishment_count);
            self.heatmap.on_replenishment(c.price, ts);
            self.core.count_replenishment();
        }
        out.append(&mut evs);
        proof {
            assert(self@.liquidity == liquidity_after(m.liquidity, *c, ts));
            assert(describes_all(evs0, liquidity_events(m.liquidity, *c, ts)));
        }
        true
    }

    /// Route one trade, when every counter it raises has room and the depth
    /// sums fit; otherwise `None` (nothing is promised of the state: a
    /// counter is at its limit, where one more overflows). The heatmap,
    /// flow and interval counters take the trade; a large trade is counted
    /// and reported; the cluster tracker and, when the shadow book is live
    /// and uncrossed, the absorption windows take it. The closed cluster and
    /// absorption window come back to be scored.
    #[verifier::rlimit(80)]
    pub fn on_trade(&mut self, t: &TradeEvent) -> (r: Option<TradeStep>)
        requires
            old(self).wf(),
        ensures
            final(self).wf(),
            r is None ==> trade_counters_blocked(old(self)@, *t) || (old(self)@.book.ready
                && !crossed(old(self)@.book.bids, old(self)@.book.asks) && depth_overflows(
                old(self)@.book,
                old(self)@.depth as nat,
            )),
            r matches Some(s) ==> !trade_counters_blocked(old(self)@, *t) && exists|
                ai: Option<(u64, u64)>,
            |
                #[trigger] absorption_input(old(self)@.book, t.aggressor, old(self)@.depth as nat, ai)
                    && final(self)@ == trade_step(old(self)@, *t, ai).0 && describes_all(
                    s.events@,
                    trade_step(old(self)@, *t, ai).1,
                ) && s.cluster == trade_step(old(self)@, *t, ai).2 && s.window == trade_step(
                    old(self)@,
                    *t,
                    ai,
                ).3,
    {
        let ghost m = self@;
        let q = t.quantity_ticks;
        let p = t.price_ticks;
        let ts = t.trade_time;
        let side = t.aggressor;
        let qi = q as i128;
        let cell = self.heatmap.touched_cell(ts, p);
        if !(cell.trade_count < u64::MAX && cell.executed_buy_volume as u128 + q as u128
            <= u64::MAX as u128 && cell.executed_sell_volume as u128 + q as u128 <= u64::MAX as u128
            && cell.delta >= i128::MIN + qi && cell.delta <= i128::MAX - qi && cell.pressure
            >= i128::MIN + qi && cell.pressure <= i128::MAX - qi) {
            return None;
        }
        if !self.flow.has_room(p, q, ts) {
            return None;
        }
        let tot = self.core.totals();
        let core_room = tot.trade_volume as u128 + q as u128 <= u64::MAX as u128 && match side {
            AggressorSide::Buy => tot.buy_volume as u128 + q as u128 <= u64::MAX as u128 && tot.delta
                <= i128::MAX - qi,
            AggressorSide::Sell => tot.sell_volume as u128 + q as u128 <= u64::MAX as u128
                && tot.delta >= i128::MIN + qi,
        };
        if !core_room {
            return None;
        }
        let large = q >= self.large_trades.threshold_ticks();
        if large && self.large_trades.count() == u64::MAX {
            return None;
        }
        self.heatmap.on_trade(t);
        self.flow.on_trade(t);
        self.core.on_trade(side, q, ts);
        assert(self@ == after_trade_counters(m, *t));
        let mut events: Vec<AnalyticsEvent> = Vec::new();
        events.push(
            AnalyticsEvent::new(AnalyticsEventKind::TradeDelta, ts, t.symbol.as_str()).with_side(
                side.label(),
            ).with_price(p).with_quantity(q),
        );
        if large {
            let vap_room = match self.flow.volume_at(p) {
                Some(v) => v.large_trade_count < u64::MAX,
                None => true,
            };
            let lcell = self.heatmap.touched_cell(ts, p);
            if !(vap_room && lcell.large_trade_volume as u128 + q as u128 <= u64::MAX as u128
                && self.core.totals().large_trade_count < u64::MAX) {
                return None;
            }
            let ev = self.large_trades.check(t);
            self.core.count_large_trade();
            self.flow.record_large_trade(p);
            self.heatmap.on_large_trade(t);
            match ev {
                Some(e) => events.push(e),
                None => {},
            }
        }
        assert(self@ == after_large_check(m, *t));
        if !self.clusters.join_room(t) {
            return None;
        }
        let cluster = self.clusters.on_trade(t);
        let ghost m3 = self@;
        let mut window: Option<AbsorptionWindow> = None;
        let ghost mut ai: Option<(u64, u64)> = None;
        if self.book.is_ready() && !self.book.is_crossed() {
            let sums = self.book.depth_sums(self.depth);
            let (sb, sa) = match sums {
                Some(x) => x,
                None => {
                    return None;
                },
            };
            let best = match side {
                AggressorSide::Buy => self.book.best_bid(),
                AggressorSide::Sell => self.book.best_ask(),
            };
            let opp = match side {
                AggressorSide::Buy => sa,
                AggressorSide::Sell => sb,
            };
            proof {
                let (rb, ra) = choose|rb: Seq<(u64, u64)>, ra: Seq<(u64, u64)>|
                    is_top_desc(m.book.bids, rb, m.depth as nat) && is_top_asc(
                        m.book.asks,
                        ra,
                        m.depth as nat,
                    ) && sb == sum_values(rb) && sa == sum_values(ra);
                ai = match best {
                    Some(x) => Some((x, opp)),
                    None => None,
                };
                if side == AggressorSide::Buy {
                    assert(is_max_key(m.book.bids, best));
                } else {
                    assert(is_min_key(m.book.asks, best));
                }
                assert(absorption_input(m.book, side, m.depth as nat, ai));
            }
            match best {
                Some(b) => {
                    if !self.absorption.trade_room(t) {
                        return None;
                    }
                    window = self.absorption.on_trade(t, b, opp);
                },
                None => {},
            }
        }
        proof {
            assert(absorption_input(m.book, side, m.depth as nat, ai));
            assert(!trade_counters_blocked(m, *t));
            assert(self@ == trade_step(m, *t, ai).0);
            assert(describes_all(events@, trade_step(m, *t, ai).1));
            assert(cluster == trade_step(m, *t, ai).2);
            assert(window == trade_step(m, *t, ai).3);
        }
        Some(TradeStep { events, cluster, window })
    }

    /// A cluster was scored as a sweep: counted, and marked in the heatmap
    /// cell of its last price at its end time. `false` (nothing changed)
    /// when a counter is at its limit.
    pub fn accept_sweep(&mut self, price: u64, ts: u64) -> (r: bool)
        requires
            old(self).wf(),
        ensures
            final(self).wf(),
            r == (old(self)@.core.totals.sweep_candidate_count < u64::MAX && touched(
                old(self)@.heatmap,
                ts,
                price,
            ).sweep_count < u64::MAX),
            r ==> final(self)@ == (EngineModel {
                core: EngineCoreModel {
                    totals: IntervalTotals {
                        sweep_candidate_count: (old(self)@.core.totals.sweep_candidate_count + 1) as u64,
                        ..old(self)@.core.totals
                    },
                    ..old(self)@.core
                },
                heatmap: after_touch(
                    old(self)@.heatmap,
                    ts,
                    price,
                    HeatmapCell {
                        sweep_count: (touched(old(self)@.heatmap, ts, price).sweep_count + 1) as u64,
                        ..touched(old(self)@.heatmap, ts, price)
                    },
                ),
                ..old(self)@
            }),
            !r ==> final(self)@ == old(self)@,
    {
        let cell = self.heatmap.touched_cell(ts, price);
        if self.core.totals().sweep_candidate_count == u64::MAX || cell.sweep_count == u64::MAX {
            return false;
        }
        self.core.count_sweep();
        self.heatmap.on_sweep(price, ts);
        true
    }

    /// An absorption window was scored as a candidate: counted by the
    /// detector and the interval counters, and marked in the heatmap cell of
    /// its price at its close time. `false` (nothing changed) when a counter
    /// is at its limit.
    pub fn accept_absorption(&mut self, w: &AbsorptionWindow) -> (r: bool)
        requires
            old(self).wf(),
        ensures
            final(self).wf(),
            r == (old(self)@.absorption.count < u64::MAX
                && old(self)@.core.totals.absorption_candidate_count < u64::MAX && touched(
                old(self)@.heatmap,
                w.close_ms,
                w.price,
            ).absorption_candidate_count < u64::MAX),
            r ==> final(self)@ == (EngineModel {
                absorption: AbsorptionModel {
                    count: (old(self)@.absorption.count + 1) as u64,
                    ..old(self)@.absorption
                },
                core: EngineCoreModel {
                    totals: IntervalTotals {
                        absorption_candidate_count: (old(self)@.core.totals.absorption_candidate_count
                            + 1) as u64,
                        ..old(self)@.core.totals
                    },
                    ..old(self)@.core
                },
                heatmap: after_touch(
                    old(self)@.heatmap,
                    w.close_ms,
                    w.price,
                    HeatmapCell {
                        absorption_candidate_count: (touched(old(self)@.heatmap, w.close_ms, w.price).absorption_candidate_count
                            + 1) as u64,
                        ..touched(old(self)@.heatmap, w.close_ms, w.price)
                    },
                ),
                ..old(self)@
            }),
            !r ==> final(self)@ == old(self)@,
    {
        let cell = self.heatmap.touched_cell(w.close_ms, w.price);
        if self.absorption.count() == u64::MAX || self.core.totals().absorption_candidate_count
            == u64::MAX || cell.absorption_candidate_count == u64::MAX {
            return false;
        }
        self.absorption.record_candidate();
        self.core.count_absorption();
        self.heatmap.on_absorption(w.price, w.close_ms);
        true
    }

    /// Route one book event, when every counter it raises has room
    /// (otherwise `None`, and nothing is promised of the state: the counters
    /// are at their limit, where adding one more would overflow).
    pub fn on_book_event(&mut self, ev: &BookEvent) -> (r: Option<Vec<AnalyticsEvent>>)
        requires
            old(self).wf(),
        ensures
            final(self).wf(),
            r is Some <==> book_event_fits(old(self)@, *ev),
            r matches Some(v) ==> final(self)@ == book_step(old(self)@, *ev).0 && describes_all(
                v@,
                book_step(old(self)@, *ev).1,
            ),
    {
        let ghost m = self@;
        let mut out: Vec<AnalyticsEvent> = Vec::new();
        match ev {
            BookEvent::Synchronized => {
                self.book.set_ready(true);
            },
            BookEvent::Snapshot { symbol, update_id, bids, asks } => {
                let zb = count_zero_levels(bids);
                let za = count_zero_levels(asks);
                if self.book.invalid_levels_rejected() as u128 + zb as u128 + za as u128 > u64::MAX as u128 {
                    return None;
                }
                let ghost pre_anom = self.core@.totals.anomalies;
                let ghost pre_crossed = self.book@.crossed_count;
                self.book.apply_snapshot(bids.as_slice(), asks.as_slice(), *update_id);
                let cr = self.book.is_crossed();
                if cr && (self.core.totals().anomalies == u64::MAX || self.book.crossed_count() == u64::MAX) {
                    return None;
                }
                self.liquidity.clear();
                let raise = self.core.after_snapshot(cr);
                if raise {
                    self.book.record_crossed();
                    out.push(anomaly_event(*update_id, symbol.as_str(), "crossed book after snapshot"));
                }
            },
            BookEvent::Updated { symbol, update_id, event_time_ms, bid_changes, ask_changes } => {
                let ts = *event_time_ms;
                self.core.on_book_update(ts);
                let changes = self.book.apply_update(bid_changes.as_slice(), ask_changes.as_slice(), *update_id);
                let ghost m1 = self@;
                let ghost cs = changes@;
                proof {
                    let u = book_updated(m.book, *update_id, bid_changes@, ask_changes@);
                    assert(m1 == (EngineModel {
                        book: u.0,
                        core: EngineCoreModel { last_event_ts: Some(ts), ..m.core },
                        ..m
                    }));
                    assert(cs == u.1);
                    assert(book_event_fits(m, *ev) ==> changes_fit(m1, cs, ts));
                }
                let mut i: usize = 0;
                while i < changes.len()
                    invariant
                        cs == changes@,
                        book_event_fits(m, *ev) ==> changes_fit(m1, cs, ts),
                        m == old(self)@,
                        0 <= i <= cs.len(),
                        self.wf(),
                        self@ == changes_after(m1, cs.take(i as int), ts),
                        describes_all(out@, changes_events(m1, cs.take(i as int), ts)),
                        forall|j: int|
                            0 <= j < i ==> change_fits(
                                #[trigger] changes_after(m1, cs.take(j), ts),
                                cs[j],
                                ts,
                            ),
                    decreases cs.len() - i,
                {
                    let ghost pre = self@;
                    let ghost out0 = out@;
                    proof {
                        assert(cs.take(i + 1).drop_last() =~= cs.take(i as int));
                        assert(cs.take(i + 1).last() == cs[i as int]);
                    }
                    let ok = self.route_change(&changes[i], ts, &mut out);
                    if !ok {
                        proof {
                            assert(!changes_fit(m1, cs, ts)) by {
                                assert(!change_fits(changes_after(m1, cs.take(i as int), ts), cs[i as int], ts));
                            }
                        }
                        return None;
                    }
                    proof {
                        let evs = choose|evs: Seq<AnalyticsEvent>|
                            out@ == out0 + evs && describes_all(
                                evs,
                                liquidity_events(pre.liquidity, cs[i as int], ts),
                            );
                        lemma_describes_append(out0, changes_events(m1, cs.take(i as int), ts), evs, liquidity_events(pre.liquidity, cs[i as int], ts));
                    }
                    i = i + 1;
                }
                proof {
                    assert(cs.take(cs.len() as int) =~= cs);
                }
                let cr = self.book.is_crossed();
                let raise_now = cr && !self.core.totals().book_crossed;
                if raise_now && (self.core.totals().anomalies == u64::MAX || self.book.crossed_count() == u64::MAX) {
                    return None;
                }
                let raise = self.core.after_update(cr);
                if raise {
                    self.book.record_crossed();
                    let ghost out1 = out@;
                    out.push(anomaly_event(*update_id, symbol.as_str(), "crossed book after update"));
                    proof {
                        lemma_describes_append(out1, changes_events(m1, cs, ts), seq![out@.last()], seq![anomaly_desc(*update_id, symbol@, "crossed book after update"@)]);
                        assert(out1 + seq![out@.last()] =~= out@);
                    }
                } else {
                    assert(changes_events(m1, cs, ts) + Seq::<EventDesc>::empty() =~= changes_events(m1, cs, ts));
                }
            },
            BookEvent::ResyncStarted => {
                self.book.set_ready(false);
                self.liquidity.clear();
            },
            BookEvent::ResyncCompleted => {},
            BookEvent::ConnectionChanged { symbol, connected } => {
                if !*connected {
                    if self.core.totals().anomalies == u64::MAX {
                        return None;
                    }
                    let ts = self.core.connection_lost();
                    out.push(anomaly_event(ts, symbol.as_str(), "connection lost"));
                }
            },
        }
        Some(out)
    }
}

/// Number of zero-quantity levels.
fn count_zero_levels(lv: &Vec<(u64, u64)>) -> (r: u64)
    ensures
        r == zero_levels(lv@),
{
    let mut n: u64 = 0;
    let mut i: usize = 0;
    while i < lv.len()
        invariant
            i <= lv.len(),
            n == zero_levels(lv@.take(i as int)),
            n <= i,
        decreases lv.len() - i,
    {
        proof {
            assert(lv@.take(i + 1).drop_last() =~= lv@.take(i as int));
        }
        if lv[i].1 == 0 {
            n = n + 1;
        }
        i = i + 1;
    }
    proof {
        assert(lv@.take(lv.len() as int) =~= lv@);
    }
    n
}

} // verus!
