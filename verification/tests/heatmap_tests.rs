use futures_orderbook::analytics::config::AnalyticsConfig;
use futures_orderbook::analytics::heatmap::{
    HeatmapCellSnapshot, HeatmapDelta, HeatmapFrame, HeatmapSummary,
};
use futures_orderbook::trades::trade::{AggressorSide, TradeEvent};

fn trade_event(id: u64, p: u64, q: u64, side: AggressorSide, ts: u64) -> TradeEvent {
    TradeEvent {
        symbol: "BTCUSDT".to_string(),
        trade_id: id,
        price_ticks: p,
        quantity_ticks: q,
        event_time: ts,
        trade_time: ts,
        local_receive_time_ns: 0,
        aggressor: side,
        order_type: "MARKET".to_string(),
    }
}

#[test]
fn test_price_grid_aggregation_1x() {
    let cfg = AnalyticsConfig::btcusdt_default();
    // aggregation = 1 means 1 exchange tick per cell
    assert_eq!(cfg.heatmap_price_aggregation, 1);
}

#[test]
fn test_price_grid_aggregation_5x() {
    let mut cfg = AnalyticsConfig::btcusdt_default();
    cfg.heatmap_price_aggregation = 5;
    assert_eq!(cfg.heatmap_price_aggregation, 5);
}

#[test]
fn test_price_grid_aggregation_10x() {
    let mut cfg = AnalyticsConfig::btcusdt_default();
    cfg.heatmap_price_aggregation = 10;
    assert_eq!(cfg.heatmap_price_aggregation, 10);
}

#[test]
fn test_price_grid_aggregation_25x() {
    let mut cfg = AnalyticsConfig::btcusdt_default();
    cfg.heatmap_price_aggregation = 25;
    assert_eq!(cfg.heatmap_price_aggregation, 25);
}

#[test]
fn test_price_grid_aggregation_50x() {
    let mut cfg = AnalyticsConfig::btcusdt_default();
    cfg.heatmap_price_aggregation = 50;
    assert_eq!(cfg.heatmap_price_aggregation, 50);
}

#[test]
fn test_price_grid_aggregation_invalid_fallback() {
    let mut cfg = AnalyticsConfig::btcusdt_default();
    cfg.heatmap_price_aggregation = 99; // unsupported value
                                        // Note: Heatmap validates and falls back to 1, but config accepts any value
    assert_eq!(cfg.heatmap_price_aggregation, 99);
}

#[test]
fn test_time_grid_intervals() {
    let cfg = AnalyticsConfig::btcusdt_default();
    let intervals = cfg.heatmap_time_intervals();
    assert!(intervals.contains(&100));
    assert!(intervals.contains(&250));
    assert!(intervals.contains(&500));
    assert!(intervals.contains(&1_000));
    assert!(intervals.contains(&2_000));
    assert!(intervals.contains(&5_000));
    assert!(intervals.contains(&10_000));
    assert!(intervals.contains(&30_000));
    assert!(intervals.contains(&60_000));
    assert_eq!(intervals.len(), 9);
}

#[test]
fn test_heatmap_pruning_old_buckets() {
    let cfg = AnalyticsConfig::btcusdt_default();
    let mut hm = futures_orderbook::analytics::heatmap::Heatmap::new(&cfg);
    let p = 6_800_000_000_000u64;

    // Add a trade at ts=0
    hm.on_trade(&trade_event(1, p, 100, AggressorSide::Buy, 0));
    assert_eq!(hm.bucket_count(), 1);

    // Add a trade at ts=30_000_000 (8.3h later, beyond 15min retention)
    hm.on_trade(&trade_event(2, p, 100, AggressorSide::Buy, 30_000_000));

    // Prune at ts=30_001_000 (just barely beyond the 15min = 900_000ms retention)
    hm.prune(30_001_000);
    // The first bucket (ts=0) should be pruned, the second (ts=30_000_000) kept.
    // But wait - the bucket start for ts=0 with cell_ms=1000 is 0.
    // The bucket start for ts=30_000_000 with cell_ms=1000 is 30_000_000.
    // Retention is 900_000ms. Cutoff = 30_001_000 - 900_000 = 29_101_000.
    // Bucket at ts=0 < 29_101_000 → pruned.
    // Bucket at ts=30_000_000 > 29_101_000 → kept.
    assert_eq!(hm.bucket_count(), 1);
}

#[test]
fn test_heatmap_cell_count_bounded() {
    let cfg = AnalyticsConfig::btcusdt_default();
    let mut hm = futures_orderbook::analytics::heatmap::Heatmap::new(&cfg);
    let p = 6_800_000_000_000u64;

    // Add many trades at different prices/times to fill up buckets.
    for i in 0..50 {
        hm.on_trade(&trade_event(
            i as u64,
            p + i as u64 * 10_000_000,
            100,
            AggressorSide::Buy,
            i as u64 * 100,
        ));
    }
    let count = hm.cell_count();
    assert!(count > 0);
    // Prune should reduce count.
    hm.prune(100_000_000);
    let after_prune = hm.cell_count();
    // Some cells should have been pruned.
    // (Exact count depends on bucket boundaries and retention.)
    println!("  cell count: {} -> after prune: {}", count, after_prune);
}

#[test]
fn test_heatmap_digest_deterministic() {
    let cfg = AnalyticsConfig::btcusdt_default();
    let mut hm = futures_orderbook::analytics::heatmap::Heatmap::new(&cfg);
    let p = 6_800_000_000_000u64;
    hm.on_trade(&trade_event(1, p, 100, AggressorSide::Buy, 1000));
    hm.on_trade(&trade_event(2, p, 200, AggressorSide::Sell, 1001));

    let d1 = hm.digest();
    let d2 = hm.digest();
    assert_eq!(d1, d2);
    assert_eq!(d1.total_trade_count, 2);
    assert_eq!(d1.total_executed_buy, 100);
    assert_eq!(d1.total_executed_sell, 200);
    assert_eq!(d1.total_delta, -100); // 100 - 200
}

#[test]
fn test_heatmap_digest_live_replay_match() {
    let cfg = AnalyticsConfig::btcusdt_default();
    let mut live = futures_orderbook::analytics::heatmap::Heatmap::new(&cfg);
    let mut replay = futures_orderbook::analytics::heatmap::Heatmap::new(&cfg);
    let p = 6_800_000_000_000u64;

    // Same events into both.
    live.on_trade(&trade_event(1, p, 100, AggressorSide::Buy, 1000));
    live.on_trade(&trade_event(2, p, 200, AggressorSide::Sell, 1001));

    replay.on_trade(&trade_event(1, p, 100, AggressorSide::Buy, 1000));
    replay.on_trade(&trade_event(2, p, 200, AggressorSide::Sell, 1001));

    assert_eq!(live.digest(), replay.digest());
}

#[test]
fn test_heatmap_digest_liquidity_fields() {
    let cfg = AnalyticsConfig::btcusdt_default();
    let mut hm = futures_orderbook::analytics::heatmap::Heatmap::new(&cfg);
    let p = 6_800_000_000_000u64;

    // Level change adds liquidity.
    let change = futures_orderbook::analytics::book::LevelChange {
        side: futures_orderbook::analytics::book::BookSide::Bid,
        price: p,
        old_qty: None,
        new_qty: 500,
    };
    hm.on_level_change(&change, 1000);

    let d = hm.digest();
    assert_eq!(d.total_liquidity_added, 500);
    assert_eq!(d.total_resting_bid, 500);
    assert_eq!(d.total_buckets, 1);
    assert_eq!(d.total_price_levels, 1);
}

#[test]
fn test_heatmap_digest_removal() {
    let cfg = AnalyticsConfig::btcusdt_default();
    let mut hm = futures_orderbook::analytics::heatmap::Heatmap::new(&cfg);
    let p = 6_800_000_000_000u64;

    // Add then remove liquidity.
    let add = futures_orderbook::analytics::book::LevelChange {
        side: futures_orderbook::analytics::book::BookSide::Ask,
        price: p,
        old_qty: None,
        new_qty: 500,
    };
    hm.on_level_change(&add, 1000);
    let remove = futures_orderbook::analytics::book::LevelChange {
        side: futures_orderbook::analytics::book::BookSide::Ask,
        price: p,
        old_qty: Some(500),
        new_qty: 200,
    };
    hm.on_level_change(&remove, 1001);

    let d = hm.digest();
    assert_eq!(d.total_liquidity_added, 500);
    assert_eq!(d.total_liquidity_removed, 300);
    assert_eq!(d.total_resting_ask, 200);
}

#[test]
fn test_heatmap_digest_summarize() {
    let cfg = AnalyticsConfig::btcusdt_default();
    let mut hm = futures_orderbook::analytics::heatmap::Heatmap::new(&cfg);
    let p = 6_800_000_000_000u64;
    hm.on_trade(&trade_event(1, p, 100, AggressorSide::Buy, 1000));
    let d = hm.digest();
    let s = d.summarize();
    assert!(s.contains("buckets=1"));
    assert!(s.contains("trades=1"));
}

#[test]
fn test_on_sweep_maps_to_heatmap_cell() {
    let cfg = AnalyticsConfig::btcusdt_default();
    let mut hm = futures_orderbook::analytics::heatmap::Heatmap::new(&cfg);
    let p = 6_800_000_000_000u64;

    hm.on_sweep(p, 1000);
    hm.on_sweep(p, 1000); // same bucket

    // Find the cell.
    let mut found = false;
    for cells_map in hm.buckets().values() {
        if let Some(cell) = cells_map.get(&p) {
            assert_eq!(cell.sweep_count, 2);
            found = true;
        }
    }
    assert!(found);
}

#[test]
fn test_on_absorption_maps_to_heatmap_cell() {
    let cfg = AnalyticsConfig::btcusdt_default();
    let mut hm = futures_orderbook::analytics::heatmap::Heatmap::new(&cfg);
    let p = 6_800_000_000_000u64;

    hm.on_absorption(p, 1000);

    for cells_map in hm.buckets().values() {
        if let Some(cell) = cells_map.get(&p) {
            assert_eq!(cell.absorption_candidate_count, 1);
        }
    }
}

#[test]
fn test_on_replenishment_maps_to_heatmap_cell() {
    let cfg = AnalyticsConfig::btcusdt_default();
    let mut hm = futures_orderbook::analytics::heatmap::Heatmap::new(&cfg);
    let p = 6_800_000_000_000u64;

    hm.on_replenishment(p, 1000);
    hm.on_replenishment(p, 1000);
    hm.on_replenishment(p, 1000);

    for cells_map in hm.buckets().values() {
        if let Some(cell) = cells_map.get(&p) {
            assert_eq!(cell.replenishment_count, 3);
        }
    }
}

#[test]
fn test_heatmap_delta_compute_new_and_changed() {
    let previous = HeatmapFrame {
        timestamp: 1000,
        visible_price_range: (100, 200),
        time_range: (1000, 2000),
        cells: vec![HeatmapCellSnapshot {
            price_tick: 100,
            executed_buy_volume: 50,
            ..HeatmapCellSnapshot::default()
        }],
        summary: HeatmapSummary {
            total_price_levels: 1,
            total_buckets: 1,
            total_executed_buy: 50,
            ..HeatmapSummary::default()
        },
    };

    let current = HeatmapFrame {
        timestamp: 2000,
        visible_price_range: (100, 300),
        time_range: (1000, 3000),
        cells: vec![
            HeatmapCellSnapshot {
                price_tick: 100,
                executed_buy_volume: 150,
                ..HeatmapCellSnapshot::default()
            },
            HeatmapCellSnapshot {
                price_tick: 300,
                executed_buy_volume: 10,
                ..HeatmapCellSnapshot::default()
            },
        ],
        summary: HeatmapSummary {
            total_price_levels: 2,
            total_buckets: 1,
            total_executed_buy: 160,
            ..HeatmapSummary::default()
        },
    };

    let delta = HeatmapDelta::compute(&previous, &current);

    // Price 100 changed (buy went from 50 to 150).
    assert_eq!(delta.changed.len(), 1);
    assert_eq!(delta.changed[0].0, 100);
    // Price 300 is new.
    assert_eq!(delta.new.len(), 1);
    assert_eq!(delta.new[0].price_tick, 300);
    // No cells removed.
    assert!(delta.removed.is_empty());
    // Summary delta shows +110 buy volume.
    assert_eq!(delta.summary_delta.total_executed_buy, 110);
}

#[test]
fn test_heatmap_delta_compute_removed() {
    let previous = HeatmapFrame {
        timestamp: 1000,
        visible_price_range: (100, 200),
        time_range: (1000, 2000),
        cells: vec![
            HeatmapCellSnapshot {
                price_tick: 100,
                ..HeatmapCellSnapshot::default()
            },
            HeatmapCellSnapshot {
                price_tick: 200,
                ..HeatmapCellSnapshot::default()
            },
        ],
        summary: HeatmapSummary {
            total_price_levels: 2,
            ..HeatmapSummary::default()
        },
    };

    let current = HeatmapFrame {
        timestamp: 2000,
        visible_price_range: (100, 100),
        time_range: (1000, 3000),
        cells: vec![HeatmapCellSnapshot {
            price_tick: 100,
            ..HeatmapCellSnapshot::default()
        }],
        summary: HeatmapSummary {
            total_price_levels: 1,
            ..HeatmapSummary::default()
        },
    };

    let delta = HeatmapDelta::compute(&previous, &current);

    // Price 200 was removed.
    assert_eq!(delta.removed, vec![200]);
    assert!(delta.changed.is_empty());
    assert!(delta.new.is_empty());
}
