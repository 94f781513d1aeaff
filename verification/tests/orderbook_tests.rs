use futures_orderbook::binance::types::DepthUpdate;
use futures_orderbook::orderbook::book::OrderBook;
use futures_orderbook::orderbook::level::{price_str_to_ticks, quantity_str_to_ticks, ticks_to_price_str};
use futures_orderbook::orderbook::synchronizer::{ProcessResult, SyncState, Synchronizer};

#[test]
fn test_snapshot_creates_bids() {
    let mut book = OrderBook::new();
    let bids = vec![
        ("50000.10".to_string(), "1.5".to_string()),
        ("49999.90".to_string(), "2.0".to_string()),
    ];
    let asks = vec![];
    book.apply_snapshot(&bids, &asks, 100).unwrap();
    assert!(book.is_initialized());
    assert_eq!(book.bid_count(), 2);
    assert_eq!(
        book.best_bid(),
        Some(price_str_to_ticks("50000.10").unwrap())
    );
}

#[test]
fn test_snapshot_creates_asks() {
    let mut book = OrderBook::new();
    let bids = vec![];
    let asks = vec![
        ("50000.20".to_string(), "0.5".to_string()),
        ("50000.30".to_string(), "3.0".to_string()),
    ];
    book.apply_snapshot(&bids, &asks, 100).unwrap();
    assert_eq!(book.ask_count(), 2);
    assert_eq!(
        book.best_ask(),
        Some(price_str_to_ticks("50000.20").unwrap())
    );
}

#[test]
fn test_insert_new_bid() {
    let mut book = OrderBook::new();
    let bids = vec![("50000.10".to_string(), "1.0".to_string())];
    book.apply_snapshot(&bids, &[], 100).unwrap();

    // Add a new higher bid
    let new_bids = vec![("50001.00".to_string(), "0.5".to_string())];
    book.apply_depth_update(&new_bids, &[], 101).unwrap();
    assert_eq!(
        book.best_bid(),
        Some(price_str_to_ticks("50001.00").unwrap())
    );
    assert_eq!(book.bid_count(), 2);
}

#[test]
fn test_insert_new_ask() {
    let mut book = OrderBook::new();
    let asks = vec![("50001.00".to_string(), "1.0".to_string())];
    book.apply_snapshot(&[], &asks, 100).unwrap();

    let new_asks = vec![("50000.50".to_string(), "0.5".to_string())];
    book.apply_depth_update(&[], &new_asks, 101).unwrap();
    assert_eq!(
        book.best_ask(),
        Some(price_str_to_ticks("50000.50").unwrap())
    );
    assert_eq!(book.ask_count(), 2);
}

#[test]
fn test_update_existing_bid() {
    let mut book = OrderBook::new();
    let bids = vec![("50000.10".to_string(), "1.0".to_string())];
    book.apply_snapshot(&bids, &[], 100).unwrap();

    // Update the existing bid
    let update = vec![("50000.10".to_string(), "2.5".to_string())];
    book.apply_depth_update(&update, &[], 101).unwrap();
    assert_eq!(book.bid_count(), 1);
    // Check the level has the new quantity
    let levels = book.bid_levels(1);
    assert_eq!(levels[0].quantity, quantity_str_to_ticks("2.5").unwrap());
}

#[test]
fn test_update_existing_ask() {
    let mut book = OrderBook::new();
    let asks = vec![("50001.00".to_string(), "1.0".to_string())];
    book.apply_snapshot(&[], &asks, 100).unwrap();

    let update = vec![("50001.00".to_string(), "3.0".to_string())];
    book.apply_depth_update(&[], &update, 101).unwrap();
    assert_eq!(book.ask_count(), 1);
    let levels = book.ask_levels(1);
    assert_eq!(levels[0].quantity, quantity_str_to_ticks("3.0").unwrap());
}

#[test]
fn test_quantity_zero_removes_bid() {
    let mut book = OrderBook::new();
    let bids = vec![
        ("50000.10".to_string(), "1.0".to_string()),
        ("49999.90".to_string(), "2.0".to_string()),
    ];
    book.apply_snapshot(&bids, &[], 100).unwrap();
    assert_eq!(book.bid_count(), 2);

    let removal = vec![("50000.10".to_string(), "0".to_string())];
    book.apply_depth_update(&removal, &[], 101).unwrap();
    assert_eq!(book.bid_count(), 1);
    assert_eq!(
        book.best_bid(),
        Some(price_str_to_ticks("49999.90").unwrap())
    );
}

#[test]
fn test_quantity_zero_removes_ask() {
    let mut book = OrderBook::new();
    let asks = vec![
        ("50000.20".to_string(), "0.5".to_string()),
        ("50000.30".to_string(), "3.0".to_string()),
    ];
    book.apply_snapshot(&[], &asks, 100).unwrap();
    assert_eq!(book.ask_count(), 2);

    let removal = vec![("50000.20".to_string(), "0".to_string())];
    book.apply_depth_update(&[], &removal, 101).unwrap();
    assert_eq!(book.ask_count(), 1);
    assert_eq!(
        book.best_ask(),
        Some(price_str_to_ticks("50000.30").unwrap())
    );
}

#[test]
fn test_best_bid_is_correct() {
    let mut book = OrderBook::new();
    let bids = vec![
        ("49998.00".to_string(), "1.0".to_string()),
        ("50000.10".to_string(), "2.0".to_string()),
        ("49999.50".to_string(), "3.0".to_string()),
    ];
    book.apply_snapshot(&bids, &[], 100).unwrap();
    assert_eq!(
        book.best_bid(),
        Some(price_str_to_ticks("50000.10").unwrap())
    );
}

#[test]
fn test_best_ask_is_correct() {
    let mut book = OrderBook::new();
    let asks = vec![
        ("50001.50".to_string(), "1.0".to_string()),
        ("50000.20".to_string(), "2.0".to_string()),
        ("50002.00".to_string(), "3.0".to_string()),
    ];
    book.apply_snapshot(&[], &asks, 100).unwrap();
    assert_eq!(
        book.best_ask(),
        Some(price_str_to_ticks("50000.20").unwrap())
    );
}

#[test]
fn test_spread() {
    let mut book = OrderBook::new();
    let bids = vec![("50000.00".to_string(), "1.0".to_string())];
    let asks = vec![("50000.50".to_string(), "1.0".to_string())];
    book.apply_snapshot(&bids, &asks, 100).unwrap();
    let spread = book.spread().unwrap();
    let expected_spread =
        price_str_to_ticks("50000.50").unwrap() - price_str_to_ticks("50000.00").unwrap();
    assert_eq!(spread, expected_spread);
}

#[test]
fn test_price_conversion_exact() {
    let p = price_str_to_ticks("50000.50").unwrap();
    // 50000.50 * 1e8 = 5_000_050_000_000
    assert_eq!(p, 5_000_050_000_000);
    assert_eq!(ticks_to_price_str(p), "50000.50");
}

#[test]
fn test_quantity_conversion() {
    let q = quantity_str_to_ticks("1.5").unwrap();
    // 1.5 * 1e8 = 150_000_000
    assert_eq!(q, 150_000_000);
}

#[test]
fn test_price_string_identity() {
    let p1 = price_str_to_ticks("50000.10").unwrap();
    let p2 = price_str_to_ticks("50000.10").unwrap();
    assert_eq!(p1, p2);
}

#[test]
fn test_no_floating_point_error() {
    // 0.1 + 0.2 != 0.3 in f64, but as ticks it should be exact
    let p1 = price_str_to_ticks("0.1").unwrap();
    let p2 = price_str_to_ticks("0.2").unwrap();
    let p3 = price_str_to_ticks("0.3").unwrap();
    assert_ne!(p1 + p2, p3 + 1); // No off-by-one from floating point
                                 // Actually 0.1*1e8 = 10000000, 0.2*1e8 = 20000000, 0.3*1e8 = 30000000
    assert_eq!(p1, 10_000_000);
    assert_eq!(p2, 20_000_000);
    assert_eq!(p3, 30_000_000);
    assert_eq!(p1 + p2, p3);
}

fn make_depth_update(u: u64, pu: u64, first_update_id: u64) -> DepthUpdate {
    DepthUpdate {
        event_type: "depthUpdate".to_string(),
        event_time: 1234567890,
        transaction_time: 1234567890,
        symbol: "BTCUSDT".to_string(),
        first_update_id,
        final_update_id: u,
        previous_final_update_id: pu,
        bids: vec![],
        asks: vec![],
    }
}

#[test]
fn test_sync_starts_disconnected() {
    let sync = Synchronizer::new();
    assert_eq!(sync.state(), SyncState::Disconnected);
}

#[test]
fn test_buffering_state() {
    let mut sync = Synchronizer::new();
    sync.on_connecting();
    assert_eq!(sync.state(), SyncState::Connecting);
    sync.on_connected();
    assert_eq!(sync.state(), SyncState::Buffering);
}

#[test]
fn test_buffer_event() {
    let mut sync = Synchronizer::new();
    sync.on_connecting();
    sync.on_connected();

    let event = make_depth_update(101, 100, 100);
    sync.buffer_event(event.clone());
    assert_eq!(sync.buffer_size(), 1);
    assert_eq!(sync.events_received(), 1);
}

#[test]
fn test_reconcile_discards_stale_events() {
    let mut sync = Synchronizer::new();
    sync.on_connecting();
    sync.on_connected();

    // Buffer events with u=98, 99, 101, 102
    sync.buffer_event(make_depth_update(98, 97, 97));
    sync.buffer_event(make_depth_update(99, 98, 98));
    sync.buffer_event(make_depth_update(101, 99, 100));
    sync.buffer_event(make_depth_update(102, 101, 101));

    // Snapshot has lastUpdateId=100
    // Events with u < 100 (i.e., u=98, u=99) should be discarded
    let events = sync.reconcile(100).unwrap();

    // First bridging event: U <= 100 AND u >= 100
    // Event u=101 has U=100 <= 100 AND u=101 >= 100 ✓
    // Event u=102 has U=101 > 100 ✗ (but it's after the bridge)
    assert!(events.len() >= 1);
    assert_eq!(events[0].final_update_id, 101);
}

#[test]
fn test_reconcile_finds_correct_bridge() {
    let mut sync = Synchronizer::new();
    sync.on_connecting();
    sync.on_connected();

    // Buffer: event with U=99,u=100 and event with U=100,u=101
    sync.buffer_event(make_depth_update(100, 99, 99));
    sync.buffer_event(make_depth_update(101, 100, 100));

    // Snapshot lastUpdateId=100
    // Event u=100: U=99 <= 100 AND u=100 >= 100 ✓ (first bridge)
    let events = sync.reconcile(100).unwrap();
    assert_eq!(events.len(), 2);
    assert_eq!(events[0].final_update_id, 100);
    assert_eq!(events[1].final_update_id, 101);
}

#[test]
fn test_no_bridging_event_triggers_error() {
    let mut sync = Synchronizer::new();
    sync.on_connecting();
    sync.on_connected();

    // Buffer: event with U=95, u=96 (all u < 100 will be discarded)
    sync.buffer_event(make_depth_update(96, 95, 95));

    // Snapshot lastUpdateId=100
    // After discarding u < 100, buffer is empty → no bridging event
    let result = sync.reconcile(100);
    assert!(result.is_err());
}

#[test]
fn test_stale_event_detected() {
    let mut sync = Synchronizer::new();
    sync.on_connecting();
    sync.on_connected();

    // Buffer events while in Buffering state
    sync.buffer_event(make_depth_update(101, 100, 100));

    sync.on_snapshot_loading();
    sync.reconcile(100).unwrap();

    // Now in Ready state, try a stale event (correct pu but u <= last_applied_u)
    // make_depth_update(u=100, pu=101, U=100) -> pu matches last_applied_u=101, but u=100 <= 101
    let stale = make_depth_update(100, 101, 100);
    let result = sync.process_live_event(&stale);
    assert_eq!(result, ProcessResult::Stale);
}

#[test]
fn test_pu_continuity_failure() {
    let mut sync = Synchronizer::new();
    sync.on_connecting();
    sync.on_connected();

    // Buffer events while in Buffering state
    sync.buffer_event(make_depth_update(101, 100, 100));

    sync.on_snapshot_loading();
    sync.reconcile(100).unwrap();
    // After reconcile, state is Ready and last_applied_u is set.

    // Create event with wrong pu
    let bad_pu_event = DepthUpdate {
        event_type: "depthUpdate".to_string(),
        event_time: 1234567890,
        transaction_time: 1234567890,
        symbol: "BTCUSDT".to_string(),
        first_update_id: 102,
        final_update_id: 103,
        previous_final_update_id: 999, // Wrong pu!
        bids: vec![],
        asks: vec![],
    };

    let result = sync.process_live_event(&bad_pu_event);
    assert_eq!(result, ProcessResult::PuMismatch);
    assert_eq!(sync.sequence_errors(), 1);
}

#[test]
fn test_resync_state_transition() {
    let mut sync = Synchronizer::new();
    sync.on_connecting();
    sync.on_connected();

    // Buffer events while in Buffering state
    sync.buffer_event(make_depth_update(101, 100, 100));

    sync.on_snapshot_loading();
    sync.reconcile(100).unwrap();

    assert_eq!(sync.state(), SyncState::Ready);
    sync.trigger_resync();
    assert_eq!(sync.state(), SyncState::Buffering);
    assert_eq!(sync.resync_count(), 1);
}

#[test]
fn test_buffer_cleared_after_reconcile() {
    let mut sync = Synchronizer::new();
    sync.on_connecting();
    sync.on_connected();

    // Buffer many events, only a few will bridge the snapshot
    for u in 80..=110 {
        sync.buffer_event(make_depth_update(u, u - 1, u - 1));
    }
    assert_eq!(sync.buffer_size(), 31);

    // Snapshot lastUpdateId=100
    // Stale events (u < 100) discarded, bridge found, chain extracted
    let events = sync.reconcile(100).unwrap();
    assert!(events.len() >= 1);

    // The buffer must be empty after reconciliation.
    // All remaining events were either applied (returned) or discarded
    // (stale/pu break). Retaining them would leak memory and confuse
    // diagnostics.
    assert_eq!(
        sync.buffer_size(),
        0,
        "buffer should be empty after reconcile, but has {} events",
        sync.buffer_size()
    );
}

#[test]
fn test_reconnect_increments_counter() {
    let mut sync = Synchronizer::new();
    sync.on_reconnecting();
    assert_eq!(sync.reconnect_count(), 1);
    sync.on_reconnecting();
    assert_eq!(sync.reconnect_count(), 2);
}

#[test]
fn test_tick_parse_accepts_float_forms() {
    assert_eq!(price_str_to_ticks("1e3").unwrap(), 100_000_000_000);
    assert_eq!(price_str_to_ticks("1E+2").unwrap(), 10_000_000_000);
    assert_eq!(price_str_to_ticks("2.5E-2").unwrap(), 2_500_000);
    assert_eq!(price_str_to_ticks("+1.5").unwrap(), 150_000_000);
    assert_eq!(price_str_to_ticks("1.").unwrap(), 100_000_000);
    assert_eq!(price_str_to_ticks(".5").unwrap(), 50_000_000);
    assert_eq!(quantity_str_to_ticks("1.e1").unwrap(), 1_000_000_000);
}

#[test]
fn test_tick_parse_casts_like_a_float() {
    assert_eq!(price_str_to_ticks("-0").unwrap(), 0);
    assert_eq!(price_str_to_ticks("-1.5").unwrap(), 0);
    assert_eq!(price_str_to_ticks("inf").unwrap(), u64::MAX);
    assert_eq!(price_str_to_ticks("+Infinity").unwrap(), u64::MAX);
    assert_eq!(price_str_to_ticks("-inf").unwrap(), 0);
    assert_eq!(price_str_to_ticks("NaN").unwrap(), 0);
    assert_eq!(price_str_to_ticks("1e400").unwrap(), u64::MAX);
    assert_eq!(price_str_to_ticks("1e-400").unwrap(), 0);
    assert_eq!(price_str_to_ticks("0e99999999999999999999999").unwrap(), 0);
    assert_eq!(price_str_to_ticks("999999999999").unwrap(), u64::MAX);
    assert_eq!(price_str_to_ticks("0.000000015").unwrap(), 2);
    assert_eq!(price_str_to_ticks("0.000000014999").unwrap(), 1);
}

#[test]
fn test_tick_parse_rejects_non_numbers() {
    for s in ["", "+", "-", ".", "e5", "1e", "1e+", "1.5.2", "abc", "in", "nanx", " 1", "1 ", "--1"] {
        assert!(price_str_to_ticks(s).is_err(), "{s:?} should not parse");
    }
}

#[test]
fn test_book_snapshot_lists_every_level_best_first() {
    let mut book = OrderBook::new();
    let bids = vec![
        ("100.00".to_string(), "1.0".to_string()),
        ("101.00".to_string(), "2.0".to_string()),
        ("99.50".to_string(), "3.0".to_string()),
    ];
    let asks = vec![("103.00".to_string(), "4.0".to_string()), ("102.00".to_string(), "5.0".to_string())];
    book.apply_snapshot(&bids, &asks, 77).unwrap();
    let full = book.snapshot();
    let bid_prices: Vec<u64> = full.bids.iter().map(|l| l.price).collect();
    let ask_prices: Vec<u64> = full.asks.iter().map(|l| l.price).collect();
    assert_eq!(bid_prices, vec![10_100_000_000, 10_000_000_000, 9_950_000_000]);
    assert_eq!(ask_prices, vec![10_200_000_000, 10_300_000_000]);
    assert_eq!(full.bids[0].quantity, 200_000_000);
    assert_eq!(full.last_update_id, 77);
    assert_eq!(full.best_bid, Some(10_100_000_000));
    assert_eq!(full.best_ask, Some(10_200_000_000));
}
