use futures_orderbook::binance::reconnect::ReconnectBackoff;
use futures_orderbook::binance::types::DepthUpdate;
use futures_orderbook::config::{depth_rest_url, depth_stream_url, exchange_info_url, trade_stream_url};
use futures_orderbook::diagnostics::format_diagnostics;
use futures_orderbook::error::OrderBookError;
use futures_orderbook::orderbook::live::LiveBook;
use futures_orderbook::orderbook::synchronizer::SyncState;
use futures_orderbook::recording::metrics::{StorageHealth, StorageState};
use futures_orderbook::recording::session::{SessionRecord, SessionStatus};
use futures_orderbook::recording::worker::{PendingBatches, Record, RecordingConfig};
use futures_orderbook::server::{SnapshotThrottle, MAX_PENDING_SNAPSHOTS};
use futures_orderbook::server_replay::{ReplayGate, ReplayState};
use futures_orderbook::storage::{LevelChangeRow, RawEventRow, SnapshotRow, TradeRow};
use futures_orderbook::trades::processor::TradeProcessor;
use futures_orderbook::verify::{audit_session, fmt_ms};

// ============================================================================
// Stream and REST endpoints (defaults: BTCUSDT, wss://fstream.binance.com,
// https://fapi.binance.com, 100ms, limit 1000)
// ============================================================================

#[test]
fn test_52_trade_stream_url_is_lowercase() {
    let url = trade_stream_url("wss://fstream.binance.com", "BTCUSDT");
    assert!(url.ends_with("/ws/btcusdt@trade"), "URL should use lowercase: {}", url);
}

#[test]
fn test_53_depth_stream_url_is_lowercase() {
    let url = depth_stream_url("wss://fstream.binance.com", "BTCUSDT", "100ms");
    assert!(url.ends_with("/ws/btcusdt@depth@100ms"), "URL should use lowercase: {}", url);
}

#[test]
fn test_endpoint_urls_exact() {
    assert_eq!(
        depth_stream_url("wss://fstream.binance.com", "BTCUSDT", "100ms"),
        "wss://fstream.binance.com/ws/btcusdt@depth@100ms"
    );
    assert_eq!(trade_stream_url("wss://x", "EthUsdt"), "wss://x/ws/ethusdt@trade");
    assert_eq!(
        depth_rest_url("https://fapi.binance.com", "BTCUSDT", 1000),
        "https://fapi.binance.com/fapi/v1/depth?symbol=BTCUSDT&limit=1000"
    );
    assert_eq!(exchange_info_url("https://fapi.binance.com"), "https://fapi.binance.com/fapi/v1/exchangeInfo");
}

// ============================================================================
// Reconnection backoff
// ============================================================================

#[test]
fn test_backoff_doubles_up_to_cap_and_resets() {
    let mut b = ReconnectBackoff::new(1000, 30_000);
    assert_eq!(b.next_attempt(), 1);
    let delays: Vec<u64> = (0..7).map(|_| b.on_failure()).collect();
    assert_eq!(delays, vec![1000, 2000, 4000, 8000, 16_000, 30_000, 30_000]);
    assert_eq!(b.next_attempt(), 2);
    b.on_connected();
    assert_eq!(b, ReconnectBackoff { base_ms: 1000, max_ms: 30_000, delay_ms: 1000, attempt: 0 });
    assert_eq!(b.on_failure(), 1000);
}

#[test]
fn test_backoff_near_u64_limit_saturates_at_cap() {
    let mut b = ReconnectBackoff::new(u64::MAX - 1, u64::MAX);
    assert_eq!(b.on_failure(), u64::MAX - 1);
    assert_eq!(b.delay_ms, u64::MAX);
}

// ============================================================================
// Server snapshot throttle and replay control
// ============================================================================

#[test]
fn test_snapshot_throttle_limits_pending_frames() {
    let mut t = SnapshotThrottle::new();
    for _ in 0..MAX_PENDING_SNAPSHOTS {
        assert!(t.on_frame());
    }
    assert!(!t.on_frame());
    assert_eq!(t.pending, MAX_PENDING_SNAPSHOTS + 1);
    t.on_delta();
    t.on_delta();
    assert!(t.on_frame());
    let mut empty = SnapshotThrottle::new();
    empty.on_delta();
    assert_eq!(empty.pending, 0);
}

#[test]
fn test_replay_state_transitions() {
    assert_eq!(ReplayState::Playing.paused(), ReplayState::Paused);
    assert_eq!(ReplayState::Paused.resumed(), ReplayState::Playing);
    assert_eq!(ReplayState::Playing.paused().resumed(), ReplayState::Playing);
    assert_eq!(ReplayState::Idle.paused(), ReplayState::Idle);
    assert_eq!(ReplayState::Completed.resumed(), ReplayState::Completed);
    assert_eq!(ReplayState::Paused.gate(), ReplayGate::Wait);
    assert_eq!(ReplayState::Idle.gate(), ReplayGate::Stop);
    assert_eq!(ReplayState::Completed.gate(), ReplayGate::Stop);
    assert_eq!(ReplayState::Playing.gate(), ReplayGate::Proceed);
    assert_eq!(ReplayState::Loading.gate(), ReplayGate::Proceed);
}

// ============================================================================
// Error texts
// ============================================================================

#[test]
fn test_order_book_error_messages() {
    assert_eq!(OrderBookError::SequenceGap { expected: 5, got: 7 }.message(), "sequence gap: expected update_id 5, got 7");
    assert_eq!(
        OrderBookError::PuContinuityFailure { expected: 100, got: 99 }.message(),
        "pu continuity failure: expected pu=100, got pu=99"
    );
    assert_eq!(
        OrderBookError::NotSynchronized(SyncState::Buffering).message(),
        "order book is not synchronized (state: Buffering)"
    );
    assert_eq!(OrderBookError::InvalidPriceLevel("x1".to_string()).message(), "invalid price level: x1");
    assert_eq!(OrderBookError::SnapshotAlreadyApplied.message(), "snapshot already applied");
    assert_eq!(OrderBookError::SnapshotRequired.message(), "snapshot required before depth updates");
}

// ============================================================================
// Recording: pending batches, configuration, health, session
// ============================================================================

fn raw(seq: u64, payload: &str) -> RawEventRow {
    RawEventRow {
        session_id: 1,
        seq,
        symbol: "BTCUSDT".to_string(),
        stream_type: "trade".to_string(),
        exchange_event_time: 0,
        exchange_transaction_time: None,
        local_receive_time: 0,
        raw_payload: payload.to_string(),
    }
}

fn trade_row(seq: u64, id: u64, price: u64, quantity: u64, order_type: &str, symbol: &str) -> TradeRow {
    TradeRow {
        session_id: 1,
        seq,
        symbol: symbol.to_string(),
        trade_id: id,
        first_trade_id: None,
        last_trade_id: None,
        price,
        quantity,
        aggressor_side: "BUY".to_string(),
        exchange_event_time: 0,
        trade_time: 0,
        local_receive_time: 0,
        order_type: order_type.to_string(),
    }
}

fn level_row(seq: u64, final_id: u64, side: &str, price: u64, symbol: &str) -> LevelChangeRow {
    LevelChangeRow {
        session_id: 1,
        seq,
        symbol: symbol.to_string(),
        exchange_event_time: 0,
        exchange_transaction_time: 0,
        local_receive_time: 0,
        first_update_id: final_id,
        final_update_id: final_id,
        previous_final_update_id: 0,
        side: side.to_string(),
        price,
        quantity: 1,
    }
}

fn snapshot(seq: u64) -> SnapshotRow {
    SnapshotRow {
        session_id: 1,
        seq,
        symbol: "BTCUSDT".to_string(),
        snapshot_update_id: seq,
        timestamp: 0,
        bids: "[]".to_string(),
        asks: "[]".to_string(),
    }
}

#[test]
fn test_pending_batches_take_and_restore_keep_rows() {
    let mut p = PendingBatches::new();
    p.enqueue(Record::Raw(raw(1, "abc")));
    p.enqueue(Record::Raw(raw(2, "de")));
    p.enqueue(Record::Trade(trade_row(3, 1, 10, 10, "MARKET", "BTCUSDT")));
    p.enqueue(Record::Depth { rows: vec![level_row(4, 1, "BID", 1, "BTCUSDT"), level_row(4, 1, "ASK", 2, "BTCUSDT")] });
    p.enqueue(Record::Snapshot(snapshot(5)));
    p.enqueue(Record::Snapshot(snapshot(6)));
    assert_eq!(p.raw_bytes(), 5);
    assert!(p.threshold_reached(2));
    assert!(!p.threshold_reached(3));
    assert_eq!(p.depth.len(), 2);
    assert_eq!(p.snapshot.as_ref().map(|s| s.seq), Some(6));

    // A refused batch goes back behind the rows that arrived since.
    let batch = p.take_raw();
    assert_eq!(batch.len(), 2);
    assert!(p.raw.is_empty());
    p.enqueue(Record::Raw(raw(7, "f")));
    p.restore_raw(batch);
    let seqs: Vec<u64> = p.raw.iter().map(|r| r.seq).collect();
    assert_eq!(seqs, vec![7, 1, 2]);
    assert_eq!(p.trades.len(), 1);

    let trades = p.take_trades();
    p.restore_trades(trades);
    assert_eq!(p.trades.len(), 1);
    let depth = p.take_depth();
    assert!(p.depth.is_empty());
    p.restore_depth(depth);
    assert_eq!(p.depth.len(), 2);
    let snap = p.take_snapshot();
    assert!(p.snapshot.is_none());
    p.restore_snapshot(snap);
    assert_eq!(p.snapshot.as_ref().map(|s| s.seq), Some(6));
}

#[test]
fn test_recording_config_floors() {
    let c = RecordingConfig::new(0, 0, 0);
    assert_eq!(c.batch_size, 1);
    assert_eq!(c.queue_capacity, 1);
    assert_eq!(c.flush_interval.as_millis(), 1);
    assert_eq!(c.retry_attempts, 5);
    let c = RecordingConfig::new(500, 250, 10_000);
    assert_eq!(c.batch_size, 500);
    assert_eq!(c.flush_interval.as_millis(), 250);
    assert_eq!(c.queue_capacity, 10_000);
}

#[test]
fn test_storage_health_mark_degraded() {
    let mut h = StorageHealth::new();
    assert!(!h.degraded);
    h.mark_degraded("insert failed");
    h.mark_degraded("insert failed again");
    assert!(h.degraded);
    assert_eq!(h.insert_failures, 2);
    assert_eq!(h.last_error.as_deref(), Some("insert failed again"));
    assert_eq!(h.state, StorageState::Degraded);
    assert_eq!(h.queue_overflows, 0);
}

#[test]
fn test_session_record_new_starts() {
    let s = SessionRecord::new("BTCUSDT", "Binance", "USDⓈ-M", "PERPETUAL", "d", "t", "0.1.0", "abc");
    assert_eq!(s.symbol, "BTCUSDT");
    assert_eq!(s.exchange, "Binance");
    assert_eq!(s.market_type, "USDⓈ-M");
    assert_eq!(s.contract_type, "PERPETUAL");
    assert_eq!(s.depth_stream, "d");
    assert_eq!(s.trade_stream, "t");
    assert_eq!(s.git_commit, "abc");
    assert_eq!(s.status, "STARTING");
    assert_eq!(s.ended_at, None);
    let other = SessionRecord::new("BTCUSDT", "Binance", "USDⓈ-M", "PERPETUAL", "d", "t", "0.1.0", "abc");
    assert_ne!(s.session_id, other.session_id);
    assert_eq!(s.session_id & 0xF000_0000_0000_0000_0000, 0x4000_0000_0000_0000_0000);
    assert_eq!(s.session_id & 0xC000_0000_0000_0000, 0x8000_0000_0000_0000);
    assert_eq!(SessionStatus::Completed.as_str(), "COMPLETED");
    assert_eq!(SessionStatus::Degraded.as_str(), "DEGRADED");
}

// ============================================================================
// Session audit
// ============================================================================

fn session(symbol: &str) -> SessionRecord {
    SessionRecord {
        session_id: 1,
        exchange: "Binance".to_string(),
        market_type: "USDⓈ-M".to_string(),
        symbol: symbol.to_string(),
        contract_type: "PERPETUAL".to_string(),
        started_at: 0,
        ended_at: None,
        software_version: "0.1.0".to_string(),
        git_commit: "abc".to_string(),
        depth_stream: "d".to_string(),
        trade_stream: "t".to_string(),
        status: "COMPLETED".to_string(),
    }
}

#[test]
fn test_audit_clean_session_verified() {
    let raw_rows = vec![raw(1, "{\"e\":\"trade\"}"), raw(2, "[1,2]")];
    let trades = vec![trade_row(1, 10, 5, 5, "MARKET", "BTCUSDT"), trade_row(2, 11, 5, 5, "MARKET", "BTCUSDT")];
    let levels = vec![level_row(3, 100, "BID", 1, "BTCUSDT"), level_row(4, 101, "BID", 1, "BTCUSDT")];
    let r = audit_session(Some(session("BTCUSDT")), &raw_rows, &trades, &levels, 2, 1);
    assert!(r.verified);
    assert_eq!(r.raw_events, 2);
    assert_eq!(r.raw_parse_errors, 0);
    assert_eq!(r.trade_rows, 2);
    assert_eq!(r.level_change_rows, 2);
    assert_eq!(r.depth_events, 2);
    assert_eq!(r.snapshots, 1);
}

#[test]
fn test_audit_finds_every_issue() {
    let raw_rows = vec![raw(1, "{not json"), raw(2, "{}")];
    let trades = vec![
        trade_row(1, 7, 5, 5, "MARKET", "BTCUSDT"),
        trade_row(2, 3, 0, 5, "MARKET", "BTCUSDT"),
        trade_row(3, 7, 5, 5, "MARKET", "BTCUSDT"),
        trade_row(4, 3, 5, 5, "NA", "ETHUSDT"),
        trade_row(5, 9, 5, 5, "MARKET", "BTCUSDT"),
    ];
    let levels = vec![
        level_row(6, 10, "BID", 100, "BTCUSDT"),
        level_row(6, 10, "ASK", 200, "BTCUSDT"),
        level_row(7, 9, "BID", 100, "BTCUSDT"),
        level_row(8, 9, "BID", 100, "XRPUSDT"),
    ];
    let r = audit_session(Some(session("BTCUSDT")), &raw_rows, &trades, &levels, 3, 0);
    assert!(!r.verified);
    assert_eq!(r.raw_parse_errors, 1);
    assert_eq!(r.duplicate_trade_ids, vec![3, 7]);
    assert_eq!(r.marker_as_trade_ids, vec![3, 3]);
    assert_eq!(r.invalid_symbol_rows, 2);
    assert_eq!(r.duplicate_depth_identities, 1);
    assert_eq!(r.depth_sequence_anomalies, 2);
    // Without a session there is no symbol to hold rows to.
    let r = audit_session(None, &raw_rows, &trades, &levels, 3, 0);
    assert_eq!(r.invalid_symbol_rows, 0);
}

#[test]
fn test_fmt_ms_exact() {
    assert_eq!(fmt_ms(0), "1970-01-01 00:00:00.000 UTC");
    assert_eq!(fmt_ms(1_700_000_000_123), "2023-11-14 22:13:20.123 UTC");
}

// ============================================================================
// Diagnostics display
// ============================================================================

#[test]
fn test_diagnostics_text_exact() {
    let mut live = LiveBook::new();
    live.on_connected();
    let _ = live.on_depth(DepthUpdate {
        event_type: "depthUpdate".to_string(),
        event_time: 1,
        transaction_time: 1,
        symbol: "BTCUSDT".to_string(),
        first_update_id: 98,
        final_update_id: 105,
        previous_final_update_id: 97,
        bids: vec![("50000.00".to_string(), "3.0".to_string())],
        asks: vec![],
    });
    let _ = live.on_snapshot(
        &vec![("50000.00".to_string(), "1.0".to_string())],
        &vec![("50001.00".to_string(), "1.0".to_string())],
        100,
        true,
    );
    let tp = TradeProcessor::new();
    let text = format_diagnostics("BTCUSDT", live.sync().state(), live.book(), live.sync(), &tp, false, 7);
    let expected = "BTCUSDT PERPETUAL\n\
Market: Binance USDⓈ-M Futures\n\
\n\
Order Book\n\
Status: Ready\n\
Best Bid:  50000.00\n\
Best Ask:  50001.00\n\
Mid:       50000.50\n\
Spread:    1.00\n\
\n\
Last Update ID: 105\n\
Events Received: 1\n\
Events Applied:  1\n\
Events Ignored:  0\n\
Resyncs: 0\n\
Reconnects: 0\n\
Sequence Errors: 0\n\
\n\
Trades\n\
Status: DISCONNECTED\n\
Trades Received: 0\n\
Trades Processed: 0\n\
Duplicates: 0\n\
Stale: 0\n\
Marker Events Rejected: 0\n\
Buy Aggressors: 0\n\
Sell Aggressors: 0\n\
\n\
Uptime: 7s\n\
Buffer size: 0\n";
    assert_eq!(text, expected);
}

#[test]
fn test_diagnostics_mid_rounds_half_cent_up() {
    let mut live = LiveBook::new();
    live.on_connected();
    let _ = live.on_snapshot(
        &vec![("50000.02".to_string(), "1.0".to_string())],
        &vec![("50000.03".to_string(), "1.0".to_string())],
        100,
        true,
    );
    let tp = TradeProcessor::new();
    let text = format_diagnostics("BTCUSDT", live.sync().state(), live.book(), live.sync(), &tp, false, 7);
    assert!(text.contains("Mid:       50000.03\n"), "{text}");
    assert!(text.contains("Spread:    0.01\n"), "{text}");
}
