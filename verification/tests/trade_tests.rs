use futures_orderbook::binance::trade_types::FuturesTrade;
use futures_orderbook::orderbook::level::{price_str_to_ticks, quantity_str_to_ticks};
use futures_orderbook::trades::normalizer::{is_marker_event, normalize_trade, NormalizeResult};
use futures_orderbook::trades::processor::{TradeProcessResult, TradeProcessor, DUPLICATE_WINDOW};
use futures_orderbook::trades::trade::{AggressorSide, TradeEvent};

#[test]
fn test_buyer_maker_true_is_sell() {
    assert_eq!(AggressorSide::from_buyer_maker(true), AggressorSide::Sell);
}

#[test]
fn test_buyer_maker_false_is_buy() {
    assert_eq!(AggressorSide::from_buyer_maker(false), AggressorSide::Buy);
}

#[test]
fn test_aggressor_labels() {
    assert_eq!(AggressorSide::Buy.label(), "BUY");
    assert_eq!(AggressorSide::Sell.label(), "SELL");
}

#[test]
fn test_aggressor_display() {
    assert_eq!(AggressorSide::Buy.label(), "BUY");
    assert_eq!(AggressorSide::Sell.label(), "SELL");
}

fn make_trade(trade_id: u64, price: &str, qty: &str, is_buyer_maker: bool) -> FuturesTrade {
    FuturesTrade {
        event_type: "trade".to_string(),
        event_time: 1787137583835,
        trade_time: 1787137583835,
        symbol: "BTCUSDT".to_string(),
        trade_id,
        price: price.to_string(),
        quantity: qty.to_string(),
        order_type: "MARKET".to_string(),
        is_buyer_maker,
        trade_type: 1,
    }
}

fn unwrap_trade(result: NormalizeResult) -> TradeEvent {
    match result {
        NormalizeResult::Normalized(t) => t,
        other => panic!("Expected Ok, got {:?}", other),
    }
}

#[test]
fn test_normalize_buy_aggressor() {
    let raw = make_trade(12345, "64486.00", "0.002", false);
    let event = unwrap_trade(normalize_trade(&raw));
    assert_eq!(event.trade_id, 12345);
    assert_eq!(event.price_ticks, price_str_to_ticks("64486.00").unwrap());
    assert_eq!(
        event.quantity_ticks,
        quantity_str_to_ticks("0.002").unwrap()
    );
    assert_eq!(event.aggressor, AggressorSide::Buy);
    assert_eq!(event.symbol, "BTCUSDT");
}

#[test]
fn test_normalize_sell_aggressor() {
    let raw = make_trade(12346, "64485.50", "0.100", true);
    let event = unwrap_trade(normalize_trade(&raw));
    assert_eq!(event.aggressor, AggressorSide::Sell);
}

#[test]
fn test_price_matches_orderbook_representation() {
    let raw = make_trade(1, "50000.10", "1.0", false);
    let event = unwrap_trade(normalize_trade(&raw));
    assert_eq!(event.price_ticks, price_str_to_ticks("50000.10").unwrap());
    assert_eq!(event.quantity_ticks, quantity_str_to_ticks("1.0").unwrap());
}

#[test]
fn test_quantity_is_exact() {
    let raw = make_trade(1, "100.00", "0.001", false);
    let event = unwrap_trade(normalize_trade(&raw));
    assert_eq!(event.quantity_ticks, 100_000);
}

#[test]
fn test_timestamps_preserved() {
    let mut raw = make_trade(1, "100.00", "0.001", false);
    raw.event_time = 999;
    raw.trade_time = 888;
    let event = unwrap_trade(normalize_trade(&raw));
    assert_eq!(event.event_time, 999);
    assert_eq!(event.trade_time, 888);
}

#[test]
fn test_local_receive_time_set() {
    let raw = make_trade(1, "100.00", "0.001", false);
    let event = unwrap_trade(normalize_trade(&raw));
    assert!(event.local_receive_time_ns > 0);
}

#[test]
fn test_trade_id_preserved() {
    let raw = make_trade(999999, "100.00", "0.001", false);
    let event = unwrap_trade(normalize_trade(&raw));
    assert_eq!(event.trade_id, 999999);
}

#[test]
fn test_order_type_preserved() {
    let mut raw = make_trade(1, "100.00", "0.001", false);
    raw.order_type = "LIMIT".to_string();
    let event = unwrap_trade(normalize_trade(&raw));
    assert_eq!(event.order_type, "LIMIT");
}

#[test]
fn test_invalid_price_returns_parse_error() {
    let raw = make_trade(1, "not_a_number", "0.001", false);
    assert!(matches!(
        normalize_trade(&raw),
        NormalizeResult::ParseError(_)
    ));
}

#[test]
fn test_invalid_quantity_returns_parse_error() {
    let raw = make_trade(1, "100.00", "abc", false);
    assert!(matches!(
        normalize_trade(&raw),
        NormalizeResult::ParseError(_)
    ));
}

#[test]
fn test_zero_price_zero_quantity_is_marker() {
    let raw = make_trade(7979198979, "0", "0", true);
    assert!(is_marker_event(&raw));
    assert!(matches!(
        normalize_trade(&raw),
        NormalizeResult::MarkerEvent(_)
    ));
}

#[test]
fn test_na_order_type_is_marker() {
    let mut raw = make_trade(1, "65000.00", "0.001", false);
    raw.order_type = "NA".to_string();
    assert!(is_marker_event(&raw));
}

#[test]
fn test_normal_trade_is_not_marker() {
    let raw = make_trade(1, "65000.00", "0.001", false);
    assert!(!is_marker_event(&raw));
}

#[test]
fn test_zero_price_only_is_marker() {
    let raw = make_trade(1, "0", "0.001", false);
    assert!(is_marker_event(&raw));
}

#[test]
fn test_zero_quantity_only_is_marker() {
    let raw = make_trade(1, "65000.00", "0", false);
    assert!(is_marker_event(&raw));
}

fn make_raw_trade(trade_id: u64, price: &str, qty: &str, is_buyer_maker: bool) -> FuturesTrade {
    FuturesTrade {
        event_type: "trade".to_string(),
        event_time: 1787137583835,
        trade_time: 1787137583835,
        symbol: "BTCUSDT".to_string(),
        trade_id,
        price: price.to_string(),
        quantity: qty.to_string(),
        order_type: "MARKET".to_string(),
        is_buyer_maker,
        trade_type: 1,
    }
}

#[test]
fn test_process_normal_trade() {
    let mut proc = TradeProcessor::new();
    let raw = make_raw_trade(100, "64000.00", "0.01", false);
    let event = normalize_trade(&raw).unwrap();
    let result = proc.process(event);
    assert_eq!(result, TradeProcessResult::Processed);
    assert_eq!(proc.trade_events_received(), 1);
    assert_eq!(proc.trade_events_processed(), 1);
    assert_eq!(proc.last_trade_id(), Some(100));
}

#[test]
fn test_duplicate_detection() {
    let mut proc = TradeProcessor::new();
    let raw = make_raw_trade(100, "64000.00", "0.01", false);
    let event1 = normalize_trade(&raw).unwrap();
    let event2 = normalize_trade(&raw).unwrap();

    assert_eq!(proc.process(event1), TradeProcessResult::Processed);
    assert_eq!(proc.process(event2), TradeProcessResult::Duplicate);
    assert_eq!(proc.duplicate_trades(), 1);
    assert_eq!(proc.trade_events_processed(), 1); // Only 1 processed
}

#[test]
fn test_stale_trade_detection() {
    let mut proc = TradeProcessor::new();
    let raw_old = make_raw_trade(50, "64000.00", "0.01", false);
    let raw_new = make_raw_trade(100, "64000.00", "0.01", false);
    let raw_older = make_raw_trade(40, "64000.00", "0.01", false);

    let event_old = normalize_trade(&raw_old).unwrap();
    let event_new = normalize_trade(&raw_new).unwrap();
    let event_older = normalize_trade(&raw_older).unwrap();

    assert_eq!(proc.process(event_old), TradeProcessResult::Processed);
    assert_eq!(proc.process(event_new), TradeProcessResult::Processed);
    assert_eq!(proc.process(event_older), TradeProcessResult::Stale);
    assert_eq!(proc.stale_trades(), 1);
}

#[test]
fn test_buyer_maker_true_sell_aggressor() {
    let mut proc = TradeProcessor::new();
    let raw = make_raw_trade(1, "64000.00", "0.01", true);
    let event = normalize_trade(&raw).unwrap();
    proc.process(event);
    assert_eq!(proc.sell_aggressor_count(), 1);
    assert_eq!(proc.buy_aggressor_count(), 0);
}

#[test]
fn test_buyer_maker_false_buy_aggressor() {
    let mut proc = TradeProcessor::new();
    let raw = make_raw_trade(1, "64000.00", "0.01", false);
    let event = normalize_trade(&raw).unwrap();
    proc.process(event);
    assert_eq!(proc.buy_aggressor_count(), 1);
    assert_eq!(proc.sell_aggressor_count(), 0);
}

#[test]
fn test_reconnect_counter() {
    let mut proc = TradeProcessor::new();
    assert_eq!(proc.trade_reconnect_count(), 0);
    proc.on_trade_reconnect();
    assert_eq!(proc.trade_reconnect_count(), 1);
    proc.on_trade_reconnect();
    assert_eq!(proc.trade_reconnect_count(), 2);
}

#[test]
fn test_malformed_counter() {
    let mut proc = TradeProcessor::new();
    proc.record_malformed();
    assert_eq!(proc.malformed_trade_events(), 1);
}

#[test]
fn test_last_trade_stored() {
    let mut proc = TradeProcessor::new();
    assert!(proc.last_trade().is_none());

    let raw = make_raw_trade(1, "64000.00", "0.01", false);
    let event = normalize_trade(&raw).unwrap();
    proc.process(event);

    let last = proc.last_trade().unwrap();
    assert_eq!(last.trade_id, 1);
    assert_eq!(last.aggressor, futures_orderbook::trades::trade::AggressorSide::Buy);
}

#[test]
fn test_sequential_trades() {
    let mut proc = TradeProcessor::new();
    for i in 1..=100 {
        let raw = make_raw_trade(i, "64000.00", "0.01", i % 2 == 0);
        let event = normalize_trade(&raw).unwrap();
        assert_eq!(proc.process(event), TradeProcessResult::Processed);
    }
    assert_eq!(proc.trade_events_processed(), 100);
    assert_eq!(proc.last_trade_id(), Some(100));
    // 50 buys (odd IDs) + 50 sells (even IDs)
    assert_eq!(proc.buy_aggressor_count(), 50);
    assert_eq!(proc.sell_aggressor_count(), 50);
}

#[test]
fn test_duplicate_window_eviction() {
    let mut proc = TradeProcessor::new();
    // Fill the window beyond DUPLICATE_WINDOW
    let base_id = 100_000;
    for i in 0..(DUPLICATE_WINDOW as u64 + 100) {
        let raw = make_raw_trade(base_id + i, "64000.00", "0.01", false);
        let event = normalize_trade(&raw).unwrap();
        proc.process(event);
    }
    // The very first ID (base_id) should have been evicted from the window
    // and should NOT be detected as duplicate if we see it again
    let raw = make_raw_trade(base_id, "64000.00", "0.01", false);
    let event = normalize_trade(&raw).unwrap();
    // This will be Stale (trade_id < last_trade_id) not Duplicate
    assert_eq!(proc.process(event), TradeProcessResult::Stale);
}
