use futures_orderbook::binance::types::DepthUpdate;
use futures_orderbook::error::OrderBookError;
use futures_orderbook::orderbook::level::{price_str_to_ticks, quantity_str_to_ticks};
use futures_orderbook::orderbook::live::{DepthAction, LiveBook, SnapshotAction};
use futures_orderbook::orderbook::synchronizer::{ProcessResult, SyncState, Synchronizer};
use futures_orderbook::recording::recorder::{
    depth_rows, encode_levels, parse_pairs, raw_row, snapshot_row, trade_row, NewTrade,
};
use futures_orderbook::replay::engine::{ReplayCore, ReplayEffect};
use futures_orderbook::replay::feed::{FeedAction, ReplayFeed};
use futures_orderbook::replay::reader::{
    decode_levels, reconstruct_depth_updates, trade_row_to_event, ReplayEvent, SessionData,
};
use futures_orderbook::storage::{LevelChangeRow, SnapshotRow, TradeRow};
use futures_orderbook::trades::trade::{AggressorSide, TradeEvent};

fn levels(v: &[(&str, &str)]) -> Vec<(String, String)> {
    v.iter().map(|(p, q)| (p.to_string(), q.to_string())).collect()
}

#[allow(non_snake_case)]
fn update(U: u64, u: u64, pu: u64, bids: &[(&str, &str)], asks: &[(&str, &str)]) -> DepthUpdate {
    DepthUpdate {
        event_type: "depthUpdate".to_string(),
        event_time: 1_000 + u,
        transaction_time: 1_000 + u,
        symbol: "BTCUSDT".to_string(),
        first_update_id: U,
        final_update_id: u,
        previous_final_update_id: pu,
        bids: levels(bids),
        asks: levels(asks),
    }
}

fn trade(id: u64, price: &str, qty: &str, side: AggressorSide) -> TradeEvent {
    TradeEvent {
        symbol: "BTCUSDT".to_string(),
        trade_id: id,
        price_ticks: price_str_to_ticks(price).unwrap(),
        quantity_ticks: quantity_str_to_ticks(qty).unwrap(),
        event_time: 2_000 + id,
        trade_time: 2_000 + id,
        local_receive_time_ns: 7,
        aggressor: side,
        order_type: "MARKET".to_string(),
    }
}

fn p(s: &str) -> u64 {
    price_str_to_ticks(s).unwrap()
}

fn q(s: &str) -> u64 {
    quantity_str_to_ticks(s).unwrap()
}

fn snapshot_event(seq: u64, update_id: u64) -> ReplayEvent {
    ReplayEvent::Snapshot {
        seq,
        update_id,
        time_ms: 500,
        bids: levels(&[("50000.00", "1.0"), ("49999.00", "2.0")]),
        asks: levels(&[("50001.00", "1.5")]),
    }
}

// ============================================================================
// Replay core
// ============================================================================

#[test]
fn test_replay_core_snapshot_reconciles_buffered_depth() {
    let mut core = ReplayCore::new(4);
    // Buffered before the snapshot: a stale event and a bridging one.
    let stale = ReplayEvent::Depth { seq: 1, update: update(90, 95, 89, &[("49000.00", "9.0")], &[]) };
    let bridge = ReplayEvent::Depth {
        seq: 2,
        update: update(98, 105, 97, &[("50000.00", "3.0")], &[]),
    };
    assert!(matches!(core.step(&stale), Ok(ReplayEffect::Skipped)));
    assert!(matches!(core.step(&bridge), Ok(ReplayEffect::Skipped)));
    assert_eq!(core.sync().buffer_size(), 2);

    assert!(matches!(core.step(&snapshot_event(3, 100)), Ok(ReplayEffect::Snapshot)));
    assert_eq!(core.sync().state(), SyncState::Ready);
    assert_eq!(core.book().last_update_id(), 105);
    assert_eq!(core.book().best_bid(), Some(p("50000.00")));
    // The stale event's level never reached the book.
    assert_eq!(core.book().bid_count(), 2);
    assert_eq!(core.book().bid_levels(1)[0].quantity, q("3.0"));
    let c = core.counters();
    assert_eq!(c.snapshots_applied, 1);
    assert_eq!(c.depth_events, 2);
    assert_eq!(c.events_applied, 1);
    assert_eq!(core.sync().events_ignored(), 1);
}

#[test]
fn test_replay_core_live_depth_and_pu_break() {
    let mut core = ReplayCore::new(4);
    assert!(matches!(core.step(&ReplayEvent::Depth { seq: 1, update: update(98, 101, 97, &[], &[]) }), Ok(ReplayEffect::Skipped)));
    assert!(matches!(core.step(&snapshot_event(2, 100)), Ok(ReplayEffect::Snapshot)));
    assert_eq!(core.sync().state(), SyncState::Ready);

    // pu continues the chain: applied.
    let next = update(102, 103, 101, &[], &[("50001.00", "0")]);
    assert!(matches!(core.step(&ReplayEvent::Depth { seq: 3, update: next }), Ok(ReplayEffect::DepthApplied)));
    assert_eq!(core.book().best_ask(), None);
    assert_eq!(core.book().last_update_id(), 103);

    // pu breaks the chain: a sequence error and a resync, the book untouched.
    let broken = update(110, 111, 999, &[("1.00", "1.0")], &[]);
    assert!(matches!(core.step(&ReplayEvent::Depth { seq: 4, update: broken }), Ok(ReplayEffect::Skipped)));
    assert_eq!(core.sync().state(), SyncState::Buffering);
    assert_eq!(core.sync().resync_count(), 1);
    assert_eq!(core.counters().sequence_errors, 1);
    assert_eq!(core.book().last_update_id(), 103);
    assert_eq!(core.book().bid_count(), 2);
}

#[test]
fn test_replay_core_trades_leave_book_unchanged() {
    let mut core = ReplayCore::new(4);
    assert!(matches!(core.step(&ReplayEvent::Depth { seq: 1, update: update(98, 101, 97, &[], &[]) }), Ok(ReplayEffect::Skipped)));
    assert!(matches!(core.step(&snapshot_event(2, 100)), Ok(ReplayEffect::Snapshot)));
    let bids_before = core.book().bid_levels(10);
    let t1 = trade(7, "50000.50", "0.25", AggressorSide::Buy);
    assert!(matches!(core.step(&ReplayEvent::Trade { seq: 3, event: t1.clone() }), Ok(ReplayEffect::TradeProcessed)));
    // The same trade again is a duplicate.
    assert!(matches!(core.step(&ReplayEvent::Trade { seq: 4, event: t1 }), Ok(ReplayEffect::Skipped)));
    assert_eq!(core.book().bid_levels(10), bids_before);
    assert_eq!(core.book().last_update_id(), 101);
    let c = core.counters();
    assert_eq!(c.trades_processed, 1);
    assert_eq!(c.trades_skipped, 1);
    assert_eq!(core.trades().duplicate_trades(), 1);
    assert_eq!(core.trades().buy_aggressor_count(), 1);
}

#[test]
fn test_replay_core_snapshot_without_bridge_resyncs() {
    let mut core = ReplayCore::new(2);
    // Only an event from the future: nothing bridges update id 100.
    assert!(matches!(core.step(&ReplayEvent::Depth { seq: 1, update: update(150, 160, 149, &[], &[]) }), Ok(ReplayEffect::Skipped)));
    assert!(matches!(core.step(&snapshot_event(2, 100)), Ok(ReplayEffect::Snapshot)));
    assert_eq!(core.sync().state(), SyncState::Buffering);
    assert_eq!(core.counters().sequence_errors, 1);
    assert_eq!(core.sync().resync_count(), 1);
    assert_eq!(core.book().last_update_id(), 100);
}

#[test]
fn test_replay_core_bad_snapshot_level_is_error() {
    let mut core = ReplayCore::new(1);
    let bad = ReplayEvent::Snapshot {
        seq: 1,
        update_id: 100,
        time_ms: 1,
        bids: levels(&[("abc", "1.0")]),
        asks: vec![],
    };
    assert!(matches!(core.step(&bad), Err(OrderBookError::InvalidPriceLevel(t)) if t == "abc"));
}

// ============================================================================
// Live book
// ============================================================================

fn ready_live() -> LiveBook {
    let mut live = LiveBook::new();
    live.on_connecting();
    live.on_connected();
    assert!(matches!(live.on_depth(update(98, 105, 97, &[("50000.00", "3.0")], &[])), DepthAction::Buffered));
    let bids = levels(&[("50000.00", "1.0")]);
    let asks = levels(&[("50001.00", "1.0")]);
    match live.on_snapshot(&bids, &asks, 100, true) {
        SnapshotAction::Reconciled { applied, error } => {
            assert_eq!(applied, 1);
            assert!(error.is_none());
        }
        other => panic!("unexpected {:?}", other),
    }
    live
}

#[test]
fn test_live_book_synchronizes_from_snapshot() {
    let live = ready_live();
    assert_eq!(live.sync().state(), SyncState::Ready);
    assert_eq!(live.book().last_update_id(), 105);
    assert_eq!(live.book().bid_levels(1)[0].quantity, q("3.0"));
    assert_eq!(live.sync().last_applied_u(), Some(105));
}

#[test]
fn test_live_book_applies_continuing_depth() {
    let mut live = ready_live();
    let a = live.on_depth(update(106, 107, 105, &[], &[("50001.00", "2.5")]));
    assert!(matches!(a, DepthAction::Applied));
    assert_eq!(live.book().ask_levels(1)[0].quantity, q("2.5"));
    assert_eq!(live.book().last_update_id(), 107);
}

#[test]
fn test_live_book_pu_mismatch_needs_resync() {
    let mut live = ready_live();
    let a = live.on_depth(update(120, 121, 119, &[("1.00", "1.0")], &[]));
    assert!(matches!(a, DepthAction::ResyncNeeded));
    assert_eq!(live.sync().state(), SyncState::Buffering);
    assert_eq!(live.sync().resync_count(), 1);
    assert_eq!(live.sync().sequence_errors(), 1);
    assert_eq!(live.sync().buffer_size(), 0);
    // The book was not touched.
    assert_eq!(live.book().last_update_id(), 105);
    assert_eq!(live.book().bid_count(), 1);
}

#[test]
fn test_live_book_stale_event_dropped() {
    let mut live = ready_live();
    let a = live.on_depth(update(100, 104, 105, &[("1.00", "1.0")], &[]));
    assert!(matches!(a, DepthAction::Stale));
    assert_eq!(live.book().bid_count(), 1);
}

#[test]
fn test_live_book_ignores_depth_while_disconnected() {
    let mut live = LiveBook::new();
    let a = live.on_depth(update(1, 2, 0, &[], &[]));
    assert!(matches!(a, DepthAction::Ignored));
    assert_eq!(live.sync().buffer_size(), 0);
}

#[test]
fn test_live_book_no_bridge_starts_resync() {
    let mut live = LiveBook::new();
    live.on_connected();
    let _ = live.on_depth(update(150, 160, 149, &[], &[]));
    let a = live.on_snapshot(&levels(&[("50000.00", "1.0")]), &vec![], 100, true);
    assert!(matches!(a, SnapshotAction::NoBridge));
    assert_eq!(live.sync().state(), SyncState::Buffering);
    assert_eq!(live.sync().resync_count(), 1);
}

#[test]
fn test_live_book_bad_snapshot_fails() {
    let mut live = LiveBook::new();
    live.on_connected();
    let a = live.on_snapshot(&levels(&[("x", "1.0")]), &vec![], 100, true);
    match a {
        SnapshotAction::Failed(e) => assert!(matches!(e, OrderBookError::InvalidPriceLevel(t) if t == "x")),
        other => panic!("unexpected {:?}", other),
    }
}

#[test]
fn test_live_book_disconnect_uninitializes() {
    let mut live = ready_live();
    live.on_disconnected();
    assert_eq!(live.sync().state(), SyncState::Reconnecting);
    assert_eq!(live.sync().reconnect_count(), 1);
    assert!(!live.book().is_initialized());
    // While reconnecting, depth events are not handled.
    assert!(matches!(live.on_depth(update(106, 107, 105, &[], &[])), DepthAction::Ignored));
    live.on_snapshot_unavailable();
    assert_eq!(live.sync().state(), SyncState::Buffering);
    assert_eq!(live.sync().resync_count(), 1);
    live.shutdown();
    assert_eq!(live.sync().state(), SyncState::Stopping);
}

// ============================================================================
// Recorder rows and their replay
// ============================================================================

#[test]
fn test_encode_levels_exact_and_skips_unparsable() {
    let lv = levels(&[("50000.10", "1.5"), ("bad", "1.0"), ("49999.00", "0.25")]);
    assert_eq!(parse_pairs(&lv), vec![(5_000_010_000_000, 150_000_000), (4_999_900_000_000, 25_000_000)]);
    assert_eq!(encode_levels(&lv), "[[5000010000000,150000000],[4999900000000,25000000]]");
    assert_eq!(encode_levels(&vec![]), "[]");
}

#[test]
fn test_decode_levels_texts() {
    let v = decode_levels("[[5000010000000,150000000],[4999900000000,25000000]]").unwrap();
    assert_eq!(v, levels(&[("50000.10", "1.5000"), ("49999.00", "0.2500")]));
    assert!(decode_levels("not json").is_err());
    assert_eq!(decode_levels("[]").unwrap(), vec![]);
}

#[test]
fn test_encode_then_decode_keeps_ticks() {
    let lv = levels(&[("68000.10", "2.0"), ("67999.90", "0.5")]);
    let back = decode_levels(&encode_levels(&lv)).unwrap();
    assert_eq!(parse_pairs(&back), parse_pairs(&lv));
}

#[test]
fn test_raw_row_fields() {
    let r = raw_row(9, 3, "BTCUSDT", "depth", "{\"e\":1}".to_string(), 11, Some(12), 13);
    assert_eq!(r.session_id, 9);
    assert_eq!(r.seq, 3);
    assert_eq!(r.symbol, "BTCUSDT");
    assert_eq!(r.stream_type, "depth");
    assert_eq!(r.raw_payload, "{\"e\":1}");
    assert_eq!(r.exchange_event_time, 11);
    assert_eq!(r.exchange_transaction_time, Some(12));
    assert_eq!(r.local_receive_time, 13);
}

fn new_trade() -> NewTrade {
    NewTrade {
        symbol: "BTCUSDT".to_string(),
        trade_id: 42,
        first_trade_id: None,
        last_trade_id: None,
        price: p("68000.10"),
        quantity: q("0.5"),
        aggressor_side: "SELL".to_string(),
        exchange_event_time_ms: 100,
        trade_time_ms: 99,
        local_receive_time_ns: 5,
        order_type: "MARKET".to_string(),
    }
}

#[test]
fn test_trade_row_and_back() {
    let row = trade_row(1, 8, new_trade());
    assert_eq!(row.seq, 8);
    assert_eq!(row.trade_id, 42);
    assert_eq!(row.price, p("68000.10"));
    assert_eq!(row.aggressor_side, "SELL");
    let e = trade_row_to_event(&row);
    assert_eq!(e.trade_id, 42);
    assert_eq!(e.price_ticks, p("68000.10"));
    assert_eq!(e.quantity_ticks, q("0.5"));
    assert_eq!(e.aggressor, AggressorSide::Sell);
    assert_eq!(e.event_time, 100);
    assert_eq!(e.trade_time, 99);
    assert_eq!(e.local_receive_time_ns, 5);
    assert_eq!(e.order_type, "MARKET");
}

#[test]
fn test_depth_rows_bids_then_asks() {
    let u = update(10, 12, 9, &[("50000.00", "1.0"), ("oops", "1")], &[("50001.00", "0")]);
    let rows = depth_rows(1, 4, &u, 77);
    assert_eq!(rows.len(), 2);
    assert_eq!(rows[0].side, "BID");
    assert_eq!(rows[0].price, p("50000.00"));
    assert_eq!(rows[0].quantity, q("1.0"));
    assert_eq!(rows[1].side, "ASK");
    assert_eq!(rows[1].quantity, 0);
    for r in &rows {
        assert_eq!(r.seq, 4);
        assert_eq!(r.first_update_id, 10);
        assert_eq!(r.final_update_id, 12);
        assert_eq!(r.previous_final_update_id, 9);
        assert_eq!(r.local_receive_time, 77);
    }
}

#[test]
fn test_reconstruct_depth_updates_groups_by_seq() {
    let a = depth_rows(1, 4, &update(10, 12, 9, &[("50000.00", "1.0")], &[("50001.00", "2.0")]), 0);
    let b = depth_rows(1, 5, &update(13, 14, 12, &[], &[("50002.00", "3.0")]), 0);
    let rows: Vec<LevelChangeRow> = a.into_iter().chain(b).collect();
    let ups = reconstruct_depth_updates(&rows);
    assert_eq!(ups.len(), 2);
    assert_eq!(ups[0].0, 4);
    assert_eq!(ups[0].1.final_update_id, 12);
    assert_eq!(ups[0].1.bids, levels(&[("50000.00", "1.0000")]));
    assert_eq!(ups[0].1.asks, levels(&[("50001.00", "2.0000")]));
    assert_eq!(ups[1].0, 5);
    assert_eq!(ups[1].1.previous_final_update_id, 12);
    assert!(ups[1].1.bids.is_empty());
    assert_eq!(ups[1].1.asks, levels(&[("50002.00", "3.0000")]));
}

#[test]
fn test_session_data_orders_by_seq() {
    let bids = levels(&[("50000.00", "1.0")]);
    let snap: SnapshotRow = snapshot_row(1, 2, "BTCUSDT", 100, 5, &bids, &vec![]);
    let depth = depth_rows(1, 3, &update(98, 101, 97, &[("50000.00", "2.0")], &[]), 0);
    let trades: Vec<TradeRow> = vec![trade_row(1, 1, new_trade())];
    let data = SessionData::from_rows(&vec![snap], &depth, &trades).unwrap();
    let seqs: Vec<u64> = data.events.iter().map(|e| e.seq()).collect();
    assert_eq!(seqs, vec![1, 2, 3]);
    assert!(matches!(data.events[0], ReplayEvent::Trade { .. }));
    assert!(matches!(data.events[1], ReplayEvent::Snapshot { update_id: 100, .. }));
    assert!(matches!(data.events[2], ReplayEvent::Depth { .. }));
}

#[test]
fn test_session_data_bad_snapshot_json_is_error() {
    let snap = SnapshotRow {
        session_id: 1,
        seq: 1,
        symbol: "BTCUSDT".to_string(),
        snapshot_update_id: 1,
        timestamp: 0,
        bids: "{{".to_string(),
        asks: "[]".to_string(),
    };
    assert!(SessionData::from_rows(&vec![snap], &vec![], &vec![]).is_err());
}

#[test]
fn test_recorded_session_replays_to_live_book() {
    // Record a snapshot and two depth events, then replay the rows.
    let bids = levels(&[("50000.00", "1.0")]);
    let asks = levels(&[("50001.00", "1.0")]);
    let u1 = update(98, 105, 97, &[("50000.00", "3.0")], &[]);
    let u2 = update(106, 107, 105, &[], &[("50001.00", "2.5")]);
    let mut depth = depth_rows(1, 1, &u1, 0);
    let snap = snapshot_row(1, 2, "BTCUSDT", 100, 0, &bids, &asks);
    depth.extend(depth_rows(1, 3, &u2, 0));
    let data = SessionData::from_rows(&vec![snap], &depth, &vec![]).unwrap();
    let mut core = ReplayCore::new(data.events.len() as u64);
    for e in &data.events {
        core.step(e).unwrap();
    }
    let mut live = ready_live();
    assert!(matches!(live.on_depth(u2), DepthAction::Applied));
    assert_eq!(core.book().bid_levels(10), live.book().bid_levels(10));
    assert_eq!(core.book().ask_levels(10), live.book().ask_levels(10));
    assert_eq!(core.book().last_update_id(), live.book().last_update_id());
}

#[test]
fn test_recorded_event_regroups_into_one_update() {
    let u = update(10, 12, 9, &[("50000.00", "1.0"), ("bad", "1"), ("49999.90", "0.003")], &[("50001.00", "0.5")]);
    let rows = depth_rows(1, 4, &u, 0);
    let back = reconstruct_depth_updates(&rows);
    assert_eq!(back.len(), 1);
    let (seq, r) = &back[0];
    assert_eq!(*seq, 4);
    assert_eq!(r.first_update_id, 10);
    assert_eq!(r.final_update_id, 12);
    assert_eq!(r.previous_final_update_id, 9);
    assert_eq!(r.event_time, u.event_time);
    assert_eq!(r.symbol, "BTCUSDT");
    // The stored levels read back with the ticks they were stored with.
    assert_eq!(parse_pairs(&r.bids), parse_pairs(&u.bids));
    assert_eq!(parse_pairs(&r.asks), parse_pairs(&u.asks));
    assert_eq!(r.bids, levels(&[("50000.00", "1.0000"), ("49999.90", "0.0030")]));
}

#[test]
fn test_stored_quantity_beyond_four_places_is_rounded() {
    // Quantities are stored in ticks but read back with four places.
    let u = update(10, 12, 9, &[("50000.00", "0.00012345")], &[]);
    let back = reconstruct_depth_updates(&depth_rows(1, 4, &u, 0));
    assert_eq!(back[0].1.bids, levels(&[("50000.00", "0.0001")]));
    assert_eq!(parse_pairs(&back[0].1.bids), vec![(p("50000.00"), 10_000)]);
}

#[test]
fn test_session_data_keeps_order_of_equal_seq() {
    let t1 = ReplayEvent::Trade { seq: 5, event: trade(1, "1.00", "1.0", AggressorSide::Buy) };
    let d = ReplayEvent::Depth { seq: 2, update: update(1, 2, 0, &[], &[]) };
    let t2 = ReplayEvent::Trade { seq: 5, event: trade(2, "1.00", "1.0", AggressorSide::Sell) };
    let data = SessionData::new(vec![t1, d, t2]);
    let ids: Vec<(u64, Option<u64>)> = data
        .events
        .iter()
        .map(|e| match e {
            ReplayEvent::Trade { seq, event } => (*seq, Some(event.trade_id)),
            other => (other.seq(), None),
        })
        .collect();
    assert_eq!(ids, vec![(2, None), (5, Some(1)), (5, Some(2))]);
}

#[test]
fn test_reconcile_checks_pu_right_after_bridge() {
    let mut s = Synchronizer::new();
    s.on_connecting();
    s.on_connected();
    s.buffer_event(update(100, 101, 99, &[], &[]));
    s.buffer_event(update(102, 103, 500, &[], &[]));
    let v = s.reconcile(100).unwrap();
    assert_eq!(v.len(), 1);
    assert_eq!(v[0].final_update_id, 101);
    assert_eq!(s.last_applied_u(), Some(101));
    // Buffering counts an event once.
    let mut b = Synchronizer::new();
    b.on_connecting();
    b.on_connected();
    assert_eq!(b.process_live_event(&update(100, 101, 100, &[], &[])), ProcessResult::Buffered);
    assert_eq!(b.buffer_size(), 1);
    assert_eq!(b.events_received(), 1);
}

#[test]
fn test_replay_feed_buffers_reconciles_and_counts_breaks_without_resync() {
    let mut feed = ReplayFeed::new();
    let buffered = ReplayEvent::Depth { seq: 1, update: update(99, 101, 98, &[("50000.00", "4.0")], &[]) };
    assert!(feed.has_room());
    assert_eq!(feed.feed(&buffered), FeedAction::Skipped);
    assert_eq!(feed.feed(&snapshot_event(2, 100)), FeedAction::SnapshotLoaded);
    assert_eq!(feed.book().last_update_id(), 101);
    assert_eq!(feed.book().best_bid(), Some(p("50000.00")));
    let next = ReplayEvent::Depth { seq: 3, update: update(102, 103, 101, &[("49999.00", "0")], &[]) };
    assert_eq!(feed.feed(&next), FeedAction::DepthApplied);
    assert_eq!(feed.book().bid_count(), 1);
    // A sequence break is skipped and counted; the feed stays live.
    let gap = ReplayEvent::Depth { seq: 4, update: update(110, 111, 109, &[("49998.00", "1.0")], &[]) };
    assert_eq!(feed.feed(&gap), FeedAction::Skipped);
    let cont = ReplayEvent::Depth { seq: 5, update: update(104, 105, 103, &[("49997.00", "1.0")], &[]) };
    assert_eq!(feed.feed(&cont), FeedAction::DepthApplied);
    let t = ReplayEvent::Trade { seq: 6, event: trade(1, "50000.00", "0.1", AggressorSide::Buy) };
    assert_eq!(feed.feed(&t), FeedAction::TradeAccepted);
    assert_eq!(feed.feed(&t), FeedAction::Skipped);
}

#[test]
fn test_replay_feed_snapshot_without_bridge_resyncs() {
    let mut feed = ReplayFeed::new();
    let old = ReplayEvent::Depth { seq: 1, update: update(90, 95, 89, &[("49000.00", "9.0")], &[]) };
    assert_eq!(feed.feed(&old), FeedAction::Skipped);
    assert_eq!(feed.feed(&snapshot_event(2, 100)), FeedAction::SnapshotLoaded);
    // No bridging event: the feed buffers again.
    let later = ReplayEvent::Depth { seq: 3, update: update(101, 102, 100, &[("49000.00", "1.0")], &[]) };
    assert_eq!(feed.feed(&later), FeedAction::Skipped);
    assert_eq!(feed.book().best_bid(), Some(p("50000.00")));
}
