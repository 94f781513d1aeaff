use futures_orderbook::analytics::book::{BookSide, LevelChange, ShadowBook};
use futures_orderbook::analytics::config::AnalyticsConfig;
use futures_orderbook::analytics::engine::{BookEvent, EngineCore, EngineState};
use futures_orderbook::analytics::flow::TradeFlow;
use futures_orderbook::analytics::events::AnalyticsEventKind;
use futures_orderbook::analytics::large_trades::LargeTradeDetector;
use futures_orderbook::analytics::liquidity::{LiquidityChangeKind, LiquidityTracker};
use futures_orderbook::trades::trade::{AggressorSide, TradeEvent};

fn t(p: &str) -> u64 {
    futures_orderbook::orderbook::level::price_str_to_ticks(p).unwrap()
}

fn q(p: &str) -> u64 {
    futures_orderbook::orderbook::level::quantity_str_to_ticks(p).unwrap()
}

fn ready_book() -> ShadowBook {
    let mut b = ShadowBook::new();
    b.apply_snapshot(
        &[(t("68000.00"), q("10.0"))],
        &[(t("68001.00"), q("5.0"))],
        1,
    );
    b
}

#[test]
fn test_snapshot_and_best() {
    let b = ready_book();
    assert!(b.is_ready());
    assert_eq!(b.best_bid(), Some(t("68000.00")));
    assert_eq!(b.best_ask(), Some(t("68001.00")));
    assert!(!b.is_crossed());
}

#[test]
fn test_microprice_exact() {
    let b = ready_book();
    let mp = b.microprice().unwrap();
    // (68001.00*10 + 68000.00*5)/15 = (680010 + 340000)/15 = 1020010/15
    // in ticks: ask=6800100000000, bid=6800000000000, bid_qty=1000000000, ask_qty=500000000
    // num = 6800100000000*1000000000 + 6800000000000*500000000
    // den = 1000000000 + 500000000 = 1500000000
    let expected_num: u128 = (t("68001.00") as u128) * (q("10.0") as u128)
        + (t("68000.00") as u128) * (q("5.0") as u128);
    let expected_den: u128 = q("10.0") as u128 + q("5.0") as u128;
    assert_eq!(mp.num, expected_num);
    assert_eq!(mp.den, expected_den);
}

#[test]
fn test_apply_update_tracks_old_qty() {
    let mut b = ready_book();
    let changes = b.apply_update(
        &[(t("68000.00"), q("8.0"), None)],
        &[(t("68001.00"), 0, None)],
        2,
    );
    assert_eq!(changes.len(), 2);
    let bid_change = changes.iter().find(|c| c.side == BookSide::Bid).unwrap();
    assert_eq!(bid_change.old_qty, Some(q("10.0")));
    assert_eq!(bid_change.new_qty, q("8.0"));
    assert_eq!(bid_change.delta_ticks(), -200_000_000);
}

#[test]
fn test_kind_strings() {
    assert_eq!(
        AnalyticsEventKind::SweepCandidate.as_str(),
        "sweep_candidate"
    );
    assert_eq!(
        AnalyticsEventKind::AbsorptionCandidate.as_str(),
        "absorption_candidate"
    );
    assert_eq!(
        AnalyticsEventKind::LiquidityReplenishment.as_str(),
        "liquidity_replenishment"
    );
}

fn cfg() -> AnalyticsConfig {
    AnalyticsConfig::btcusdt_default()
}

fn change(side: BookSide, price: &str, old: Option<&str>, new: &str) -> LevelChange {
    let p = futures_orderbook::orderbook::level::price_str_to_ticks(price).unwrap();
    let o = old.map(|s| futures_orderbook::orderbook::level::quantity_str_to_ticks(s).unwrap());
    let n = futures_orderbook::orderbook::level::quantity_str_to_ticks(new).unwrap();
    LevelChange {
        side,
        price: p,
        old_qty: o,
        new_qty: n,
    }
}

#[test]
fn test_classify() {
    assert_eq!(
        LiquidityChangeKind::classify(None, 100),
        LiquidityChangeKind::Added
    );
    assert_eq!(
        LiquidityChangeKind::classify(Some(100), 0),
        LiquidityChangeKind::Removed
    );
    assert_eq!(
        LiquidityChangeKind::classify(Some(100), 200),
        LiquidityChangeKind::Increased
    );
    assert_eq!(
        LiquidityChangeKind::classify(Some(200), 100),
        LiquidityChangeKind::Decreased
    );
    assert_eq!(
        LiquidityChangeKind::classify(Some(100), 100),
        LiquidityChangeKind::Unchanged
    );
    assert_eq!(
        LiquidityChangeKind::classify(None, 0),
        LiquidityChangeKind::Unchanged
    );
}

#[test]
fn test_added_removed_net() {
    let mut lt = LiquidityTracker::new(&cfg());
    let c = change(BookSide::Bid, "68000.00", None, "5.0");
    lt.on_level_change(&c, 1000);
    assert_eq!(lt.added_ticks(), 500_000_000);
    assert_eq!(lt.removed_ticks(), 0);

    let c = change(BookSide::Bid, "68000.00", Some("5.0"), "2.0");
    lt.on_level_change(&c, 1010);
    assert_eq!(lt.removed_ticks(), 300_000_000);

    // 2 → 8 (increase) adds 6
    let c = change(BookSide::Bid, "68000.00", Some("2.0"), "8.0");
    lt.on_level_change(&c, 1020);
    assert_eq!(lt.added_ticks(), 500_000_000 + 600_000_000);
}

#[test]
fn test_replenishment_within_window() {
    let mut lt = LiquidityTracker::new(&cfg());
    // 10 → 2 (decrease)
    let c = change(BookSide::Ask, "68001.00", Some("10.0"), "2.0");
    let ev = lt.on_level_change(&c, 1000);
    assert!(!ev
        .iter()
        .any(|e| e.kind == AnalyticsEventKind::LiquidityReplenishment));
    // 2 → 9 (increase) within 250ms window
    let c = change(BookSide::Ask, "68001.00", Some("2.0"), "9.0");
    let ev = lt.on_level_change(&c, 1100);
    assert!(ev
        .iter()
        .any(|e| e.kind == AnalyticsEventKind::LiquidityReplenishment));
    assert_eq!(lt.replenishment_count(), 1);
}

#[test]
fn test_no_replenishment_outside_window() {
    let mut lt = LiquidityTracker::new(&cfg());
    let c = change(BookSide::Ask, "68001.00", Some("10.0"), "2.0");
    lt.on_level_change(&c, 1000);
    // Increase 1000ms later, far outside the 250ms window.
    let c = change(BookSide::Ask, "68001.00", Some("2.0"), "9.0");
    let ev = lt.on_level_change(&c, 2000);
    assert!(!ev
        .iter()
        .any(|e| e.kind == AnalyticsEventKind::LiquidityReplenishment));
    assert_eq!(lt.replenishment_count(), 0);
}

#[test]
fn test_persistence_record() {
    let mut lt = LiquidityTracker::new(&cfg());
    let c = change(BookSide::Bid, "68000.00", None, "3.0");
    lt.on_level_change(&c, 1000);
    let c = change(BookSide::Bid, "68000.00", Some("3.0"), "7.0");
    lt.on_level_change(&c, 1010);
    let recs = lt.persistence();
    let rec = recs.first().unwrap();
    assert_eq!(rec.peak_quantity, 700_000_000);
    assert_eq!(rec.current_quantity, 700_000_000);
    assert_eq!(rec.created_at, 1000);
}

#[test]
fn test_defaults_are_sane() {
    let cfg = AnalyticsConfig::default();
    assert_eq!(cfg.tick_size_ticks, 10_000_000);
    assert_eq!(cfg.large_trade_min_quantity_ticks, 500_000_000);
    assert_eq!(cfg.imbalance_depth, 10);
    assert_eq!(
        cfg.aggregation_intervals_ms,
        vec![100, 1_000, 5_000, 60_000]
    );
}

#[test]
fn test_heatmap_default_aggregation_is_1() {
    let cfg = AnalyticsConfig::btcusdt_default();
    assert_eq!(cfg.heatmap_price_aggregation, 1);
    assert_eq!(
        cfg.heatmap_time_intervals,
        vec![100, 250, 500, 1_000, 2_000, 5_000, 10_000, 30_000, 60_000]
    );
}

fn trade(id: u64, price: &str, qty: &str, side: AggressorSide, ts: u64) -> TradeEvent {
    TradeEvent {
        symbol: "BTCUSDT".to_string(),
        trade_id: id,
        price_ticks: futures_orderbook::orderbook::level::price_str_to_ticks(price).unwrap(),
        quantity_ticks: futures_orderbook::orderbook::level::quantity_str_to_ticks(qty).unwrap(),
        event_time: ts,
        trade_time: ts,
        local_receive_time_ns: 0,
        aggressor: side,
        order_type: "MARKET".to_string(),
    }
}

#[test]
fn test_large_trade_detection() {
    let mut det = LargeTradeDetector::new(&AnalyticsConfig::btcusdt_default());
    // 5 BTC threshold: 4.9 not large, 5.0 large.
    assert!(det
        .check(&trade(1, "68000.00", "4.9", AggressorSide::Buy, 1))
        .is_none());
    let ev = det
        .check(&trade(2, "68000.00", "5.0", AggressorSide::Sell, 2))
        .unwrap();
    assert_eq!(ev.kind, AnalyticsEventKind::LargeTrade);
    assert_eq!(det.count(), 1);
    let recent = det.recent_large_trades();
    let lt = recent.first().unwrap();
    assert_eq!(lt.side, AggressorSide::Sell);
    assert_eq!(lt.quantity, 500_000_000);
    assert_eq!(lt.threshold_ticks, 500_000_000);
}

#[test]
fn test_engine_core_raises_crossing_once() {
    let mut core = EngineCore::new(1_000);
    assert!(core.after_update(true));
    assert!(!core.after_update(true));
    assert!(!core.after_update(false));
    assert!(core.after_update(true));
    assert_eq!(core.totals().anomalies, 2);
    assert!(core.totals().book_crossed);
    assert!(core.after_snapshot(true));
    assert_eq!(core.totals().anomalies, 3);
    assert!(!core.after_snapshot(false));
    assert!(!core.totals().book_crossed);
}

#[test]
fn test_engine_core_snapshot_clock_and_reset() {
    let mut core = EngineCore::new(1_000);
    assert_eq!(core.force(false), None);
    core.on_trade(AggressorSide::Buy, 5, 100);
    core.on_trade(AggressorSide::Sell, 2, 150);
    core.count_large_trade();
    let first = core.finalize_due(150, true).unwrap();
    assert_eq!(first.trade_volume, 7);
    assert_eq!(first.buy_volume, 5);
    assert_eq!(first.sell_volume, 2);
    assert_eq!(first.delta, 3);
    assert_eq!(first.large_trade_count, 1);
    assert!(first.book_crossed);
    assert_eq!(core.totals().trade_volume, 0);
    assert!(!core.snapshot_due(1_149));
    assert_eq!(core.finalize_due(1_149, false), None);
    assert!(core.snapshot_due(1_150));
    core.on_book_update(1_200);
    assert_eq!(core.clock(), 1_200);
    assert_eq!(core.connection_lost(), 1_200);
    let (ts, totals) = core.force(false).unwrap();
    assert_eq!(ts, 1_200);
    assert_eq!(totals.anomalies, 1);
    assert!(!totals.book_crossed);
}

#[test]
fn test_engine_core_zero_interval_counts_as_one_ms() {
    let mut core = EngineCore::new(0);
    assert!(core.snapshot_due(10));
    core.take_interval(10, false);
    assert!(!core.snapshot_due(10));
    assert!(core.snapshot_due(11));
}

#[test]
fn test_flow_cvd_stays_buy_minus_sell() {
    let mut f = TradeFlow::new(vec![100, 1_000], 60_000);
    let sides = [AggressorSide::Buy, AggressorSide::Sell, AggressorSide::Sell, AggressorSide::Buy];
    let qtys = ["1.5", "0.25", "2.0", "0.001"];
    for i in 0..4 {
        let t = trade(i as u64 + 1, "68000.00", qtys[i], sides[i], 50 + 400 * i as u64);
        assert!(f.has_room(t.price_ticks, t.quantity_ticks, t.trade_time));
        f.on_trade(&t);
        assert_eq!(f.totals().cvd, f.totals().delta());
    }
    assert_eq!(f.totals().cvd, 150_000_000 - 25_000_000 - 200_000_000 + 100_000);
    let v = f.volume_at(6_800_000_000_000).unwrap();
    assert_eq!(v.total_volume, v.buy_volume + v.sell_volume);
    assert_eq!(v.delta, v.buy_volume as i128 - v.sell_volume as i128);
}

#[test]
fn test_engine_book_routes_snapshot_and_crossing() {
    let mut eb = EngineState::new(&AnalyticsConfig::btcusdt_default());
    let evs = eb
        .on_book_event(&BookEvent::Snapshot {
            symbol: "BTCUSDT".to_string(),
            update_id: 42,
            bids: vec![(100, 1), (95, 0)],
            asks: vec![(90, 1)],
        })
        .unwrap();
    assert_eq!(evs.len(), 1);
    assert_eq!(evs[0].kind, AnalyticsEventKind::BookAnomaly);
    assert_eq!(evs[0].ts_ms, 42);
    assert_eq!(evs[0].detail["reason"], "crossed book after snapshot");
    assert_eq!(eb.book.crossed_count(), 1);
    assert_eq!(eb.book.invalid_levels_rejected(), 1);
    assert_eq!(eb.core.totals().anomalies, 1);
    // Still crossed after an update: no second anomaly.
    let evs = eb
        .on_book_event(&BookEvent::Updated {
            symbol: "BTCUSDT".to_string(),
            update_id: 43,
            event_time_ms: 500,
            bid_changes: vec![(99, 3, None)],
            ask_changes: vec![],
        })
        .unwrap();
    assert_eq!(evs.len(), 1);
    assert_eq!(evs[0].kind, AnalyticsEventKind::LiquidityAdded);
    assert_eq!(eb.core.totals().anomalies, 1);
    assert_eq!(eb.core.clock(), 500);
}

#[test]
fn test_engine_book_routes_replenishment() {
    let mut eb = EngineState::new(&AnalyticsConfig::btcusdt_default());
    eb.on_book_event(&BookEvent::Snapshot {
        symbol: "BTCUSDT".to_string(),
        update_id: 1,
        bids: vec![(100, 5)],
        asks: vec![(110, 5)],
    })
    .unwrap();
    let upd = |id: u64, ts: u64, qty: u64| BookEvent::Updated {
        symbol: "BTCUSDT".to_string(),
        update_id: id,
        event_time_ms: ts,
        // The hint is wrong on purpose: old quantities come from the shadow book.
        bid_changes: vec![(100, qty, Some(12345))],
        ask_changes: vec![],
    };
    let evs = eb.on_book_event(&upd(2, 1_000, 2)).unwrap();
    assert_eq!(evs.len(), 1);
    assert_eq!(evs[0].kind, AnalyticsEventKind::LiquidityDecreased);
    assert_eq!(evs[0].quantity, 3);
    let evs = eb.on_book_event(&upd(3, 1_100, 6)).unwrap();
    assert_eq!(evs.len(), 2);
    assert_eq!(evs[0].kind, AnalyticsEventKind::LiquidityIncreased);
    assert_eq!(evs[0].quantity, 4);
    assert_eq!(evs[1].kind, AnalyticsEventKind::LiquidityReplenishment);
    assert_eq!(eb.core.totals().replenishment_count, 1);
    assert_eq!(eb.liquidity.replenishment_count(), 1);
    assert_eq!(eb.heatmap.touched_cell(1_100, 100).replenishment_count, 1);
    // A resync clears the liquidity tracker; a lost connection is an anomaly
    // at the engine's clock.
    eb.on_book_event(&BookEvent::ResyncStarted).unwrap();
    assert!(!eb.book.is_ready());
    assert_eq!(eb.liquidity.added_ticks(), 0);
    let evs = eb
        .on_book_event(&BookEvent::ConnectionChanged { symbol: "BTCUSDT".to_string(), connected: false })
        .unwrap();
    assert_eq!(evs.len(), 1);
    assert_eq!(evs[0].ts_ms, 1_100);
    assert_eq!(evs[0].detail["reason"], "connection lost");
}

#[test]
fn test_engine_state_routes_trades() {
    let cfg = AnalyticsConfig::btcusdt_default();
    let mut es = EngineState::new(&cfg);
    es.on_book_event(&BookEvent::Snapshot {
        symbol: "BTCUSDT".to_string(),
        update_id: 1,
        bids: vec![(6_799_990_000_000, 200_000_000)],
        asks: vec![(6_800_000_000_000, 300_000_000)],
    })
    .unwrap();
    // A large buy: its own event, then the large-trade event.
    let t1 = trade(1, "68000.00", "6.0", AggressorSide::Buy, 1_000);
    let s1 = es.on_trade(&t1).unwrap();
    assert_eq!(s1.events.len(), 2);
    assert_eq!(s1.events[0].kind, AnalyticsEventKind::TradeDelta);
    assert_eq!(s1.events[1].kind, AnalyticsEventKind::LargeTrade);
    assert!(s1.cluster.is_none());
    assert!(s1.window.is_none());
    assert_eq!(es.core.totals().trade_volume, 600_000_000);
    assert_eq!(es.core.totals().large_trade_count, 1);
    assert_eq!(es.flow.totals().cvd, 600_000_000);
    assert_eq!(es.heatmap.touched_cell(1_000, t1.price_ticks).large_trade_volume, 600_000_000);
    // A small sell far away in time closes the cluster.
    let t2 = trade(2, "67990.00", "0.5", AggressorSide::Sell, 900_000);
    let s2 = es.on_trade(&t2).unwrap();
    assert_eq!(s2.events.len(), 1);
    let closed = s2.cluster.unwrap();
    assert_eq!(closed.total_volume, 600_000_000);
    assert_eq!(es.core.totals().delta, 600_000_000 - 50_000_000);
    assert!(es.accept_sweep(closed.last_price, closed.end_ms));
    assert_eq!(es.core.totals().sweep_candidate_count, 1);
    assert_eq!(es.heatmap.touched_cell(closed.end_ms, closed.last_price).sweep_count, 1);
}

#[test]
fn test_engine_state_absorption_window_closes_and_is_accepted() {
    let cfg = AnalyticsConfig::btcusdt_default();
    let mut es = EngineState::new(&cfg);
    es.on_book_event(&BookEvent::Snapshot {
        symbol: "BTCUSDT".to_string(),
        update_id: 1,
        bids: vec![(6_799_990_000_000, 200_000_000)],
        asks: vec![(6_800_000_000_000, 300_000_000)],
    })
    .unwrap();
    let t1 = trade(1, "68000.00", "0.1", AggressorSide::Buy, 1_000);
    assert!(es.on_trade(&t1).unwrap().window.is_none());
    // Past the absorption window the same price closes the window.
    let late = 1_000 + cfg.absorption_window_ms + 1;
    let t2 = trade(2, "68000.00", "0.1", AggressorSide::Buy, late);
    let w = es.on_trade(&t2).unwrap().window.unwrap();
    assert_eq!(w.trade_count, 1);
    assert_eq!(w.reference_price, 6_799_990_000_000);
    assert_eq!(w.opposing_liquidity_open, 300_000_000);
    assert!(es.accept_absorption(&w));
    assert_eq!(es.absorption.count(), 1);
    assert_eq!(es.core.totals().absorption_candidate_count, 1);
    assert_eq!(es.heatmap.touched_cell(w.close_ms, w.price).absorption_candidate_count, 1);
}
