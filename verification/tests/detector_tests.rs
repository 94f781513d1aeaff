use futures_orderbook::analytics::absorption::AbsorptionDetector;
use futures_orderbook::analytics::book::{LevelChange, ShadowBook};
use futures_orderbook::analytics::clusters::{ClusterTracker, TradeCluster};
use futures_orderbook::analytics::config::AnalyticsConfig;
use futures_orderbook::analytics::events::AnalyticsEventKind;
use futures_orderbook::analytics::flow::TradeFlow;
use futures_orderbook::analytics::heatmap::{Heatmap, HeatmapCell, HeatmapCellSnapshot, HeatmapFrame};
use futures_orderbook::analytics::large_trades::LargeTradeDetector;
use futures_orderbook::analytics::liquidity::LiquidityTracker;
use futures_orderbook::analytics::sweeps::sweep_evidence;
use futures_orderbook::orderbook::level::{price_str_to_ticks, quantity_str_to_ticks};
use futures_orderbook::trades::trade::{AggressorSide, TradeEvent};

fn price(s: &str) -> u64 {
    price_str_to_ticks(s).unwrap()
}

fn qty(s: &str) -> u64 {
    quantity_str_to_ticks(s).unwrap()
}

fn trade(id: u64, p: u64, q: u64, side: AggressorSide, ts: u64) -> TradeEvent {
    TradeEvent {
        symbol: "BTCUSDT".to_string(),
        trade_id: id,
        price_ticks: p,
        quantity_ticks: q,
        event_time: ts,
        trade_time: ts,
        local_receive_time_ns: 0,
        aggressor: side,
        order_type: "MARKET".to_string(),
    }
}

fn cfg() -> AnalyticsConfig {
    AnalyticsConfig::btcusdt_default()
}

/// The seeded book: best bid 68000.00 (10 BTC), best ask 68000.10 (5 BTC).
fn seeded_book() -> ShadowBook {
    let mut b = ShadowBook::new();
    b.apply_snapshot(&[(price("68000.00"), qty("10.0"))], &[(price("68000.10"), qty("5.0"))], 1);
    b
}

fn find_cell(hm: &Heatmap, p: u64) -> Option<HeatmapCell> {
    for (_, cells) in hm.buckets() {
        if let Some(c) = cells.get(&p) {
            return Some(*c);
        }
    }
    None
}

/// Apply bid changes to the book and feed the level changes to the heatmap.
fn update_bids(book: &mut ShadowBook, hm: &mut Heatmap, id: u64, ts: u64, bids: &[(u64, u64, Option<u64>)]) {
    for c in book.apply_update(bids, &[], id) {
        hm.on_level_change(&c, ts);
    }
}

// ============================================================================
// Clusters and sweeps
// ============================================================================

#[test]
fn test_cluster_groups_nearby_trades() {
    let mut ct = ClusterTracker::new(&cfg());
    let p = 6_800_000_000_000u64;
    let t1 = trade(1, p, 100, AggressorSide::Buy, 1000);
    let t2 = trade(2, p, 200, AggressorSide::Buy, 1050);
    let t3 = trade(3, p, 300, AggressorSide::Sell, 5000);
    assert!(ct.on_trade(&t1).is_none());
    assert!(ct.on_trade(&t2).is_none());
    let closed = ct.on_trade(&t3).unwrap();
    assert_eq!(closed.trade_count, 2);
    assert_eq!(closed.total_volume, 300);
    assert_eq!(closed.delta, 300);
    assert_eq!(closed.levels_crossed, 1);
}

#[test]
fn test_cluster_tracks_range_and_direction() {
    let mut ct = ClusterTracker::new(&cfg());
    let p = price("68000.00");
    for i in 0..3u64 {
        assert!(ct.on_trade(&trade(i + 1, p + i * 10_000_000, 100, AggressorSide::Buy, 1000 + i)).is_none());
    }
    let closed = ct.on_trade(&trade(9, price("69000.00"), 1, AggressorSide::Sell, 9000)).unwrap();
    assert_eq!(closed.start_ms, 1000);
    assert_eq!(closed.end_ms, 1002);
    assert_eq!(closed.duration_ms(), 2);
    assert_eq!(closed.low, p);
    assert_eq!(closed.high, p + 20_000_000);
    assert_eq!(closed.first_price, p);
    assert_eq!(closed.last_price, p + 20_000_000);
    assert_eq!(closed.levels_crossed, 3);
    assert!(closed.monotonic);
    assert_eq!(closed.dominant_side, AggressorSide::Buy);
    assert_eq!(closed.dominant_volume(), 300);
    assert_eq!(ct.closed_clusters().len(), 1);
}

fn make_cluster(side: AggressorSide, prices: &[u64], volume_each: u64, start: u64, step_ms: u64) -> TradeCluster {
    let mut c = TradeCluster {
        start_ms: start,
        end_ms: start,
        high: prices[0],
        low: prices[0],
        total_volume: 0,
        buy_volume: 0,
        sell_volume: 0,
        delta: 0,
        trade_count: 0,
        largest_trade_quantity: volume_each,
        dominant_side: side,
        levels_crossed: 1,
        monotonic: true,
        first_price: prices[0],
        last_price: prices[0],
    };
    let mut prev = prices[0];
    for (i, p) in prices.iter().enumerate() {
        c.end_ms = start + i as u64 * step_ms;
        c.total_volume += volume_each;
        c.trade_count += 1;
        if *p != prev {
            c.levels_crossed += 1;
        }
        match side {
            AggressorSide::Buy => c.buy_volume += volume_each,
            AggressorSide::Sell => c.sell_volume += volume_each,
        }
        c.high = c.high.max(*p);
        c.low = c.low.min(*p);
        prev = *p;
    }
    c.last_price = *prices.last().unwrap();
    c.delta = match side {
        AggressorSide::Buy => c.total_volume as i128,
        AggressorSide::Sell => -(c.total_volume as i128),
    };
    c
}

#[test]
fn test_buy_sweep_evidence() {
    let cluster = make_cluster(
        AggressorSide::Buy,
        &[68_000_000_000_000, 68_000_100_000_000, 68_000_200_000_000, 68_000_300_000_000],
        200_000_000,
        1000,
        20,
    );
    let ev = sweep_evidence(&cfg(), &cluster).expect("buy sweep");
    assert_eq!(ev.levels_crossed, 4);
    assert_eq!(ev.side, AggressorSide::Buy);
    assert_eq!(ev.volume, 800_000_000);
    assert_eq!(ev.dominant_volume, 800_000_000);
    assert_eq!(ev.duration_ms, 60);
    assert_eq!(ev.price_displacement_ticks, 300_000_000);
    assert_eq!(ev.first_price, 68_000_000_000_000);
    assert_eq!(ev.last_price, 68_000_300_000_000);
}

#[test]
fn sweeps_test_same_price_not_sweep() {
    let cluster = make_cluster(
        AggressorSide::Buy,
        &[68_000_000_000_000, 68_000_000_000_000, 68_000_000_000_000],
        500_000_000,
        1000,
        10,
    );
    assert!(sweep_evidence(&cfg(), &cluster).is_none());
}

#[test]
fn test_sell_sweep_detected() {
    let cluster = make_cluster(
        AggressorSide::Sell,
        &[68_000_300_000_000, 68_000_200_000_000, 68_000_100_000_000],
        300_000_000,
        1000,
        20,
    );
    let cand = sweep_evidence(&cfg(), &cluster).expect("sell sweep");
    assert_eq!(cand.side, AggressorSide::Sell);
    assert_eq!(cand.levels_crossed, 3);
}

#[test]
fn test_sweep_needs_volume_and_monotonic_path() {
    // Too little volume: 3 levels of 0.1 BTC.
    let thin = make_cluster(AggressorSide::Buy, &[100_000_000, 110_000_000, 120_000_000], 10_000_000, 0, 10);
    assert!(sweep_evidence(&cfg(), &thin).is_none());
    // Enough volume but the path turned back.
    let mut back = make_cluster(AggressorSide::Buy, &[100_000_000, 110_000_000, 120_000_000], 300_000_000, 0, 10);
    back.monotonic = false;
    assert!(sweep_evidence(&cfg(), &back).is_none());
    // Too slow: longer than the sweep window.
    let slow = make_cluster(AggressorSide::Buy, &[100_000_000, 110_000_000, 120_000_000], 300_000_000, 0, 1_000);
    assert!(sweep_evidence(&cfg(), &slow).is_none());
}

#[test]
fn analytics_tests_test_same_price_not_sweep() {
    let mut ct = ClusterTracker::new(&cfg());
    let p = price("68000.10");
    let mut closed = Vec::new();
    for i in 0..4u64 {
        closed.extend(ct.on_trade(&trade(i + 1, p, qty("2.0"), AggressorSide::Buy, 6000 + i * 10)));
    }
    closed.extend(ct.on_trade(&trade(99, price("69000.00"), qty("0.1"), AggressorSide::Sell, 7000)));
    assert_eq!(closed.len(), 1);
    assert!(closed.iter().all(|c| sweep_evidence(&cfg(), c).is_none()), "same-price cluster must not be a sweep");
}

#[test]
fn test_sweep_cluster_from_trades() {
    let mut ct = ClusterTracker::new(&cfg());
    let p = price("68000.00");
    let mut closed = Vec::new();
    for i in 0..4u64 {
        closed.extend(ct.on_trade(&trade(i + 1, p + i * 10_000_000, qty("2.0"), AggressorSide::Buy, 4000 + i * 10)));
    }
    closed.extend(ct.on_trade(&trade(99, price("69000.00"), qty("0.1"), AggressorSide::Sell, 5000)));
    assert_eq!(closed.len(), 1);
    let ev = sweep_evidence(&cfg(), &closed[0]).expect("a sweep");
    assert_eq!(ev.levels_crossed, 4);
    assert_eq!(ev.volume, qty("8.0"));
}

// ============================================================================
// Absorption
// ============================================================================

#[test]
fn test_absorption_window_passes_gates() {
    let mut det = AbsorptionDetector::new(&cfg());
    let p = 6_800_000_000_000u64;
    let big = 500_000_000;
    for i in 0..5 {
        let t = trade(i, p, big, AggressorSide::Buy, 1000 + i * 5);
        assert!(det.on_trade(&t, p, 10_000_000_000).is_none());
    }
    assert_eq!(det.window_count(), 1);
    let windows = det.flush();
    assert_eq!(windows.len(), 1);
    let w = &windows[0];
    assert_eq!(w.trade_count, 5);
    assert_eq!(w.aggressive_volume, 5 * big);
    assert_eq!(w.max_favorable_displacement, 0);
    assert_eq!(w.open_ms, 1000);
    assert_eq!(w.close_ms, 1020);
    assert_eq!(det.gate(w), Some((0, 3)));
    det.record_candidate();
    assert_eq!(det.count(), 1);
    assert_eq!(det.window_count(), 0);
}

#[test]
fn test_single_large_trade_no_trigger() {
    let mut det = AbsorptionDetector::new(&cfg());
    let p = 6_800_000_000_000u64;
    let t = trade(1, p, 5_000_000_000, AggressorSide::Buy, 1000);
    assert!(det.on_trade(&t, p, 10_000_000_000).is_none());
    assert_eq!(det.count(), 0);
    // Too few trades: the window fails the gates.
    let w = det.flush();
    assert_eq!(w.len(), 1);
    assert_eq!(det.gate(&w[0]), None);
}

#[test]
fn test_displacement_exceeds_excursion() {
    let mut det = AbsorptionDetector::new(&cfg());
    let p = 6_800_000_000_000u64;
    let big = 500_000_000;
    for i in 0..5 {
        let t = trade(i, p, big, AggressorSide::Buy, 1000 + i * 5);
        let best = p + 10_000_000 * (i + 1);
        det.on_trade(&t, best, 10_000_000_000);
    }
    assert_eq!(det.count(), 0);
    let w = det.flush();
    assert_eq!(w[0].max_favorable_displacement, 40_000_000);
    assert_eq!(det.gate(&w[0]), None);
}

#[test]
fn test_absorption_expired_window_returned_by_next_trade() {
    let mut det = AbsorptionDetector::new(&cfg());
    let p = price("68000.00");
    for i in 0..5 {
        assert!(det.on_trade(&trade(i + 1, p, qty("5.0"), AggressorSide::Sell, 8000 + i * 5), price("68000.10"), qty("10.0")).is_none());
    }
    let w = det.on_trade(&trade(99, p, qty("0.1"), AggressorSide::Sell, 10_000), price("68000.10"), qty("10.0")).expect("window closed");
    assert_eq!(w.trade_count, 5);
    assert_eq!(w.side, AggressorSide::Sell);
    assert_eq!(w.opposing_liquidity_open, qty("10.0"));
    assert!(det.gate(&w).is_some());
    // The closing trade opened nothing.
    assert_eq!(det.window_count(), 0);
}

// ============================================================================
// Flow, liquidity, large trades
// ============================================================================

#[test]
fn test_volume_by_price_profile() {
    let c = cfg();
    let mut flow = TradeFlow::new(c.aggregation_intervals_ms.clone(), c.retention_ms);
    let trades = vec![
        trade(1, price("68000.10"), qty("1.0"), AggressorSide::Buy, 1000),
        trade(2, price("68000.10"), qty("2.0"), AggressorSide::Sell, 1001),
        trade(3, price("68000.00"), qty("3.0"), AggressorSide::Buy, 1002),
        trade(4, price("68000.00"), qty("4.0"), AggressorSide::Sell, 1003),
        trade(5, price("68000.10"), qty("5.0"), AggressorSide::Buy, 1004),
    ];
    for t in &trades {
        flow.on_trade(t);
    }
    let vp = flow.volume_at(price("68000.10")).unwrap();
    assert_eq!(vp.total_volume, 8 * 100_000_000);
    assert_eq!(vp.buy_volume, 6 * 100_000_000);
    assert_eq!(vp.sell_volume, 2 * 100_000_000);
    assert_eq!(vp.delta, 4 * 100_000_000);
    let vp = flow.volume_at(price("68000.00")).unwrap();
    assert_eq!(vp.total_volume, 7 * 100_000_000);
    assert_eq!(vp.delta, -100_000_000);
}

#[test]
fn test_liquidity_changes_emitted() {
    let c = cfg();
    let mut book = seeded_book();
    let mut liq = LiquidityTracker::new(&c);
    let changes = book.apply_update(&[(price("68000.00"), qty("8.0"), None)], &[], 2);
    let mut kinds = Vec::new();
    for ch in &changes {
        kinds.extend(liq.on_level_change(ch, 1900).iter().map(|e| e.kind));
    }
    assert!(kinds.contains(&AnalyticsEventKind::LiquidityDecreased));
    let changes = book.apply_update(&[(price("68000.00"), qty("2.0"), None)], &[], 3);
    let mut kinds = Vec::new();
    for ch in &changes {
        kinds.extend(liq.on_level_change(ch, 1901).iter().map(|e| e.kind));
    }
    assert!(kinds.contains(&AnalyticsEventKind::LiquidityDecreased));
    assert_eq!(liq.removed_ticks(), 8 * 100_000_000);
}

#[test]
fn test_replenishment_within_window_emitted() {
    let c = cfg();
    let mut book = seeded_book();
    let mut liq = LiquidityTracker::new(&c);
    for ch in &book.apply_update(&[], &[(price("68000.10"), qty("2.0"), None)], 2) {
        liq.on_level_change(ch, 3000);
    }
    let mut found = false;
    for ch in &book.apply_update(&[], &[(price("68000.10"), qty("9.0"), None)], 3) {
        found |= liq.on_level_change(ch, 3100).iter().any(|e| e.kind == AnalyticsEventKind::LiquidityReplenishment);
    }
    assert!(found);
    assert_eq!(liq.replenishment_count(), 1);
}

// ============================================================================
// Heatmap fed by trades and book changes
// ============================================================================

#[test]
fn test_grid_price_mapping() {
    let mut hm = Heatmap::new(&cfg());
    let p = price("68000.10");
    hm.on_trade(&trade(1, p, 100, AggressorSide::Buy, 1000));
    assert!(hm.cell_count() >= 1);
    assert_eq!(find_cell(&hm, p).unwrap().price, p);
}

#[test]
fn test_time_bucket_boundaries() {
    let mut hm = Heatmap::new(&cfg());
    let p = price("68000.10");
    hm.on_trade(&trade(1, p, 100, AggressorSide::Buy, 0));
    hm.on_trade(&trade(2, p, 200, AggressorSide::Sell, 500));
    hm.on_trade(&trade(3, p, 300, AggressorSide::Buy, 999));
    assert_eq!(hm.bucket_count(), 1);
    hm.on_trade(&trade(4, p, 400, AggressorSide::Buy, 1001));
    assert_eq!(hm.bucket_count(), 2);
}

#[test]
fn test_time_grid_determinism() {
    let c = cfg();
    let p = price("68000.10");
    let run = || {
        let mut hm = Heatmap::new(&c);
        let mut flow = TradeFlow::new(c.aggregation_intervals_ms.clone(), c.retention_ms);
        for t in [trade(1, p, 100, AggressorSide::Buy, 1000), trade(2, p, 200, AggressorSide::Sell, 1001)] {
            hm.on_trade(&t);
            flow.on_trade(&t);
        }
        (hm.digest(), flow.digest())
    };
    assert_eq!(run(), run());
}

#[test]
fn test_cell_liquidity_accumulation() {
    let mut book = ShadowBook::new();
    let mut hm = Heatmap::new(&cfg());
    let p = price("68000.10");
    update_bids(&mut book, &mut hm, 1, 1000, &[(p, qty("8.0"), None)]);
    update_bids(&mut book, &mut hm, 2, 1001, &[(p, qty("12.0"), None)]);
    hm.on_trade(&trade(1, p, 100, AggressorSide::Buy, 1002));
    let cell = find_cell(&hm, p).unwrap();
    assert_eq!(cell.resting_bid_liquidity, 12 * 100_000_000);
    assert_eq!(cell.liquidity_added, 12 * 100_000_000);
    assert_eq!(cell.liquidity_removed, 0);
    assert_eq!(cell.executed_buy_volume, 100);
    assert_eq!(cell.trade_count, 1);
}

#[test]
fn test_cell_trade_accumulation() {
    let mut hm = Heatmap::new(&cfg());
    let p = price("68000.10");
    hm.on_trade(&trade(1, p, 100, AggressorSide::Buy, 1000));
    hm.on_trade(&trade(2, p, 200, AggressorSide::Sell, 1001));
    hm.on_trade(&trade(3, p, 300, AggressorSide::Buy, 1002));
    let cell = find_cell(&hm, p).unwrap();
    assert_eq!(cell.executed_buy_volume, 400);
    assert_eq!(cell.executed_sell_volume, 200);
    assert_eq!(cell.total_executed_volume(), 600);
    assert_eq!(cell.delta, 200);
    assert_eq!(cell.trade_count, 3);
}

#[test]
fn test_cell_buy_sell_separation() {
    let mut hm = Heatmap::new(&cfg());
    let p = price("68000.10");
    hm.on_trade(&trade(1, p, 500, AggressorSide::Buy, 1000));
    hm.on_trade(&trade(2, p, 300, AggressorSide::Sell, 1001));
    let cell = find_cell(&hm, p).unwrap();
    assert_eq!(cell.executed_buy_volume, 500);
    assert_eq!(cell.executed_sell_volume, 300);
    assert_eq!(cell.delta, 200);
    assert_eq!(cell.trade_count, 2);
    assert!(cell.has_executed_volume());
}

#[test]
fn test_liquidity_additions_and_removals() {
    let mut book = ShadowBook::new();
    let mut hm = Heatmap::new(&cfg());
    let p = price("68000.10");
    update_bids(&mut book, &mut hm, 1, 1000, &[(p, qty("7.0"), None)]);
    update_bids(&mut book, &mut hm, 2, 1001, &[(p, qty("12.0"), None)]);
    hm.on_trade(&trade(1, p, 100, AggressorSide::Buy, 1002));
    let cell = find_cell(&hm, p).unwrap();
    assert_eq!(cell.resting_bid_liquidity, 12 * 100_000_000);
    assert_eq!(cell.liquidity_added, 12 * 100_000_000);
    assert_eq!(cell.liquidity_removed, 0);
}

#[test]
fn test_heatmap_decrease_counts_removed() {
    // A cell's liquidity is measured against what the cell has seen.
    let mut book = ShadowBook::new();
    let mut hm = Heatmap::new(&cfg());
    let p = price("68000.00");
    update_bids(&mut book, &mut hm, 1, 1000, &[(p, qty("10.0"), None)]);
    update_bids(&mut book, &mut hm, 2, 1001, &[(p, qty("7.0"), None)]);
    let cell = find_cell(&hm, p).unwrap();
    assert_eq!(cell.liquidity_added, qty("10.0"));
    assert_eq!(cell.liquidity_removed, qty("3.0"));
    assert_eq!(cell.resting_bid_liquidity, qty("7.0"));
    let removed: Vec<LevelChange> = book.apply_update(&[(p, 0, None)], &[], 3);
    assert_eq!(removed.len(), 1);
    assert_eq!(removed[0].old_qty, Some(qty("7.0")));
    assert_eq!(book.best_bid(), None);
}

#[test]
fn test_absorption_candidate_mapping_to_heatmap() {
    let mut hm = Heatmap::new(&cfg());
    let p = price("68000.00");
    for i in 0..5 {
        hm.on_trade(&trade(i + 1, p, qty("5.0"), AggressorSide::Sell, 8000 + i * 5));
    }
    hm.on_trade(&trade(99, p, qty("0.1"), AggressorSide::Sell, 10_000));
    assert!(hm.cell_count() >= 1);
}

#[test]
fn test_large_trade_mapping_to_heatmap() {
    let c = cfg();
    let mut det = LargeTradeDetector::new(&c);
    let mut hm = Heatmap::new(&c);
    let p = price("68000.10");
    let t = trade(1, p, qty("6.0"), AggressorSide::Buy, 1000);
    hm.on_trade(&t);
    let ev = det.check(&t);
    assert!(ev.iter().any(|e| e.kind == AnalyticsEventKind::LargeTrade));
    hm.on_large_trade(&t);
    assert_eq!(det.count(), 1);
    let cell = find_cell(&hm, p).unwrap();
    assert!(cell.large_trade_volume > 0);
}

#[test]
fn test_identical_event_stream_produces_identical_heatmap() {
    let c = cfg();
    let p = price("68000.10");
    let run = || {
        let mut hm = Heatmap::new(&c);
        hm.on_trade(&trade(1, p, 100, AggressorSide::Buy, 1000));
        hm.on_trade(&trade(2, p, 200, AggressorSide::Sell, 1001));
        hm.on_trade(&trade(3, p, 300, AggressorSide::Buy, 1002));
        hm
    };
    let (a, b) = (run(), run());
    assert_eq!(a.digest(), b.digest());
    assert_eq!(a.cell_count(), b.cell_count());
    assert_eq!(a.bucket_count(), b.bucket_count());
}

#[test]
fn test_heatmap_digest_fields() {
    let mut hm = Heatmap::new(&cfg());
    let p = price("68000.10");
    hm.on_trade(&trade(1, p, 100, AggressorSide::Buy, 1000));
    hm.on_trade(&trade(2, p, 200, AggressorSide::Sell, 1001));
    assert!(hm.cell_count() >= 1);
    let d = hm.digest();
    assert_eq!(d.total_trade_count, 2);
    assert_eq!(d.total_delta, -100);
}

#[test]
fn test_replay_heatmap_digest_matches_live() {
    let c = cfg();
    let p = price("68000.10");
    let events = vec![
        trade(1, p, qty("1.0"), AggressorSide::Buy, 1000),
        trade(2, price("68000.00"), qty("0.5"), AggressorSide::Sell, 1001),
        trade(3, p, qty("2.0"), AggressorSide::Buy, 1002),
    ];
    let mut live = Heatmap::new(&c);
    let mut replay = Heatmap::new(&c);
    for e in &events {
        live.on_trade(e);
    }
    for e in &events {
        replay.on_trade(e);
    }
    assert_eq!(live.digest(), replay.digest());
    assert_eq!(live.cell_count(), replay.cell_count());
    assert_eq!(live.bucket_count(), replay.bucket_count());
}

#[test]
fn test_heatmap_frame_serialization() {
    let mut hm = Heatmap::new(&cfg());
    let p = price("68000.10");
    hm.on_trade(&trade(1, p, 100, AggressorSide::Buy, 1000));
    hm.on_trade(&trade(2, p, 200, AggressorSide::Sell, 1001));
    let frame = HeatmapFrame::from_heatmap(&hm, 1000, 0, u64::MAX);
    assert!(!frame.cells.is_empty());
    assert!(frame.summary.total_price_levels >= 1);
    assert!(frame.timestamp > 0);
    assert_eq!(frame.summary.total_executed_buy, 100);
    assert_eq!(frame.summary.total_executed_sell, 200);
}

#[test]
fn test_heatmap_cell_snapshot_fields() {
    let mut hm = Heatmap::new(&cfg());
    let p = price("68000.10");
    hm.on_trade(&trade(1, p, 100, AggressorSide::Buy, 1000));
    let cell = find_cell(&hm, p).unwrap();
    let snapshot = HeatmapCellSnapshot::from_cell(&cell, cell.price);
    assert_eq!(snapshot.price_tick, cell.price);
    assert_eq!(snapshot.resting_bid_liquidity, cell.resting_bid_liquidity);
    assert_eq!(snapshot.resting_ask_liquidity, cell.resting_ask_liquidity);
    assert_eq!(snapshot.liquidity_added, cell.liquidity_added);
    assert_eq!(snapshot.liquidity_removed, cell.liquidity_removed);
    assert_eq!(snapshot.executed_buy_volume, cell.executed_buy_volume);
    assert_eq!(snapshot.executed_sell_volume, cell.executed_sell_volume);
    assert_eq!(snapshot.trade_count, cell.trade_count);
    assert_eq!(snapshot.large_trade_volume, cell.large_trade_volume);
    assert_eq!(snapshot.replenishment_count, cell.replenishment_count);
    assert_eq!(snapshot.absorption_candidate_count, cell.absorption_candidate_count);
    assert_eq!(snapshot.sweep_count, cell.sweep_count);
    assert_eq!(snapshot.pressure, cell.pressure);
}

#[test]
fn test_heatmap_exposes_liquidity_mode_fields() {
    let mut book = ShadowBook::new();
    let mut hm = Heatmap::new(&cfg());
    let p = price("68000.10");
    update_bids(&mut book, &mut hm, 1, 1000, &[(p, qty("10.0"), None)]);
    hm.on_trade(&trade(1, p, 100, AggressorSide::Buy, 1000));
    let cell = find_cell(&hm, p).unwrap();
    assert!(cell.resting_bid_liquidity > 0);
    assert!(cell.has_resting_liquidity());
}

#[test]
fn test_heatmap_pressure_field() {
    let mut hm = Heatmap::new(&cfg());
    let p = price("68000.10");
    hm.on_trade(&trade(1, p, qty("1.0"), AggressorSide::Buy, 1000));
    assert_eq!(find_cell(&hm, p).unwrap().pressure, 100_000_000);
    hm.on_trade(&trade(2, p, qty("0.5"), AggressorSide::Sell, 1001));
    assert_eq!(find_cell(&hm, p).unwrap().pressure, 50_000_000);
}

#[test]
fn test_engine_heatmap_digest_method() {
    let mut hm = Heatmap::new(&cfg());
    hm.on_trade(&trade(1, price("68000.10"), 100, AggressorSide::Buy, 1000));
    let digest = hm.digest();
    assert_eq!(digest.total_trade_count, 1);
    assert_eq!(digest.total_buckets, 1);
    assert_eq!(digest.total_price_levels, 1);
}

#[test]
fn test_heatmap_cell_count_nonzero() {
    let mut hm = Heatmap::new(&cfg());
    hm.on_trade(&trade(1, price("68000.10"), qty("1.0"), AggressorSide::Buy, 1000));
    assert!(hm.cell_count() >= 1);
}

#[test]
fn test_large_trade_event_fields_and_detail() {
    let c = cfg();
    let mut det = LargeTradeDetector::new(&c);
    let small = trade(1, price("68000.10"), qty("0.5"), AggressorSide::Buy, 999);
    assert!(det.check(&small).is_none());
    assert_eq!(det.count(), 0);
    let t = trade(7, price("68000.10"), qty("6.0"), AggressorSide::Sell, 1000);
    let e = det.check(&t).expect("large trade");
    assert_eq!(e.kind, AnalyticsEventKind::LargeTrade);
    assert_eq!(e.ts_ms, 1000);
    assert_eq!(e.symbol, "BTCUSDT");
    assert_eq!(e.side.as_deref(), Some("SELL"));
    assert_eq!(e.price, Some(price("68000.10")));
    assert_eq!(e.quantity, qty("6.0"));
    let notional = (price("68000.10") as u128 * qty("6.0") as u128).to_string();
    assert_eq!(e.detail["trade_id"], 7);
    assert_eq!(e.detail["notional_ticks"], notional.as_str());
    assert_eq!(e.detail["threshold_ticks"], c.large_trade_min_quantity_ticks);
    assert_eq!(det.count(), 1);
    let recent = det.recent_large_trades();
    assert_eq!(recent.len(), 1);
    assert_eq!(recent[0].trade_id, 7);
}

#[test]
fn test_closed_bucket_cvd_is_cvd_when_it_closed() {
    let mut f = TradeFlow::new(vec![100], 900_000);
    assert!(f.on_trade(&trade(1, 1000, 5, AggressorSide::Buy, 10)).is_empty());
    let closed = f.on_trade(&trade(2, 1000, 2, AggressorSide::Sell, 120));
    assert_eq!(closed.len(), 1);
    let b = closed[0];
    assert_eq!((b.interval_ms, b.start_ms, b.end_ms), (100, 0, 100));
    assert_eq!((b.buy_volume, b.sell_volume, b.total_volume, b.trade_count), (5, 0, 5, 1));
    assert_eq!(b.delta, 5);
    assert_eq!(b.cvd_end, 5);
    assert_eq!(f.totals().cvd, 3);
}

#[test]
fn test_prune_drops_every_expired_bucket() {
    // Buckets of 60 s and 100 ms close in interleaved order of their ends.
    let mut f = TradeFlow::new(vec![100, 60_000], 1_000);
    f.on_trade(&trade(1, 1000, 1, AggressorSide::Buy, 10));
    f.on_trade(&trade(2, 1000, 1, AggressorSide::Buy, 60_050));
    f.on_trade(&trade(3, 1000, 1, AggressorSide::Buy, 60_150));
    // Completed: [100ms 0..100, 60s 0..60000, 100ms 60000..60100].
    assert_eq!(f.completed_buckets(100).len(), 2);
    assert_eq!(f.completed_buckets(60_000).len(), 1);
    f.prune(61_050);
    // Cutoff 60_050: only the bucket ending at 60_100 stays.
    assert!(f.completed_buckets(60_000).is_empty());
    let left = f.completed_buckets(100);
    assert_eq!(left.len(), 1);
    assert_eq!(left[0].end_ms, 60_100);
}

#[test]
fn test_price_aggregation_spans_exchange_ticks() {
    let mut h = Heatmap::new(&cfg());
    h.set_price_aggregation(5);
    h.on_trade(&trade(1, 6_800_000_000_000, 100, AggressorSide::Buy, 1000));
    h.on_trade(&trade(2, 6_800_010_000_000, 100, AggressorSide::Buy, 1000));
    assert_eq!(h.cell_count(), 1);
    let c = find_cell(&h, 6_800_000_000_000).unwrap();
    assert_eq!(c.trade_count, 2);
    h.on_trade(&trade(3, 6_800_050_000_000, 100, AggressorSide::Buy, 1000));
    assert_eq!(h.cell_count(), 2);
}
