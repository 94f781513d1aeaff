//! Engine metrics and the combined diagnostics display.
use vstd::prelude::*;

use crate::orderbook::book::{is_max_key, is_min_key, not_crossed, BookModel, OrderBook};
use crate::orderbook::synchronizer::{state_name, SyncModel, SyncState, Synchronizer};
use crate::text::{decimal_text, fixed_text, push_decimal, push_fixed, push_str};
use crate::trades::processor::{TradeModel, TradeProcessor};
use crate::trades::trade::side_label;

verus! {

/// `std::time::Instant`: a reading of the monotonic clock.
#[verifier::external_type_specification]
#[verifier::external_body]
pub struct ExInstant(std::time::Instant);

/// `std::time::Instant::now`: the current monotonic time.
///
/// Nothing is claimed of the reading: it comes from the machine's clock.
#[verifier::external_body]
fn instant_now() -> (r: std::time::Instant) {
    std::time::Instant::now()
}

/// Counters of the order-book engine.
#[derive(Debug)]
pub struct Metrics {
    pub events_received: u64,
    pub events_applied: u64,
    pub events_ignored: u64,
    pub malformed_events: u64,
    pub sequence_errors: u64,
    pub resync_count: u64,
    pub reconnect_count: u64,
    pub current_update_id: u64,
    /// When the last event was applied.
    pub last_event_time: Option<std::time::Instant>,
    /// When the connection started.
    pub connection_start: Option<std::time::Instant>,
}

impl Metrics {
    /// Metrics taken from the synchronizer; the current update id is the last
    /// applied `u`, or the book's update id when none was applied.
    pub fn from_synchronizer(sync: &Synchronizer, book: &OrderBook) -> (r: Self)
        ensures
            r.events_received == sync@.events_received,
            r.events_applied == sync@.events_applied,
            r.events_ignored == sync@.events_ignored,
            r.malformed_events == 0,
            r.sequence_errors == sync@.sequence_errors,
            r.resync_count == sync@.resync_count,
            r.reconnect_count == sync@.reconnect_count,
            r.current_update_id == match sync@.last_applied_u {
                Some(u) => u,
                None => book@.last_update_id,
            },
            r.last_event_time is Some <==> sync@.last_applied_u is Some,
            r.connection_start is None,
    {
        let current_update_id = match sync.last_applied_u() {
            Some(u) => u,
            None => book.last_update_id(),
        };
        let last_event_time = match sync.last_applied_u() {
            Some(_) => Some(instant_now()),
            None => None,
        };
        Metrics {
            events_received: sync.events_received(),
            events_applied: sync.events_applied(),
            events_ignored: sync.events_ignored(),
            malformed_events: 0,
            sequence_errors: sync.sequence_errors(),
            resync_count: sync.resync_count(),
            reconnect_count: sync.reconnect_count(),
            current_update_id,
            last_event_time,
            connection_start: None,
        }
    }

    pub fn record_event_received(&mut self)
        requires
            old(self).events_received < u64::MAX,
        ensures
            final(self).events_received == old(self).events_received + 1,
            *final(self) == (Metrics { events_received: final(self).events_received, ..*old(self) }),
    {
        self.events_received = self.events_received + 1;
    }

    /// Count an applied event and stamp the time.
    pub fn record_event_applied(&mut self)
        requires
            old(self).events_applied < u64::MAX,
        ensures
            final(self).events_applied == old(self).events_applied + 1,
            final(self).last_event_time is Some,
            *final(self) == (Metrics {
                events_applied: final(self).events_applied,
                last_event_time: final(self).last_event_time,
                ..*old(self)
            }),
    {
        self.events_applied = self.events_applied + 1;
        self.last_event_time = Some(instant_now());
    }

    pub fn record_event_ignored(&mut self)
        requires
            old(self).events_ignored < u64::MAX,
        ensures
            final(self).events_ignored == old(self).events_ignored + 1,
            *final(self) == (Metrics { events_ignored: final(self).events_ignored, ..*old(self) }),
    {
        self.events_ignored = self.events_ignored + 1;
    }

    pub fn record_malformed_event(&mut self)
        requires
            old(self).malformed_events < u64::MAX,
        ensures
            final(self).malformed_events == old(self).malformed_events + 1,
            *final(self) == (Metrics {
                malformed_events: final(self).malformed_events,
                ..*old(self)
            }),
    {
        self.malformed_events = self.malformed_events + 1;
    }

    pub fn record_sequence_error(&mut self)
        requires
            old(self).sequence_errors < u64::MAX,
        ensures
            final(self).sequence_errors == old(self).sequence_errors + 1,
            *final(self) == (Metrics { sequence_errors: final(self).sequence_errors, ..*old(self) }),
    {
        self.sequence_errors = self.sequence_errors + 1;
    }
}

/// `label` followed by a decimal count and a newline.
pub open spec fn count_line(label: Seq<char>, n: nat) -> Seq<char> {
    label + decimal_text(n) + "\n"@
}

/// `label` followed by a two-decimal price (or dashes) and a newline.
pub open spec fn price_line(label: Seq<char>, p: Option<u64>) -> Seq<char> {
    match p {
        Some(t) => label + fixed_text(t as nat, 2) + "\n"@,
        None => label + "-----\n"@,
    }
}

fn make_count_line(label: &str, n: u64) -> (r: String)
    ensures
        r@ == count_line(label@, n as nat),
{
    let mut s = String::new();
    push_str(&mut s, label);
    push_decimal(&mut s, n as u128);
    push_str(&mut s, "\n");
    s
}

fn make_price_line(label: &str, p: Option<u64>) -> (r: String)
    ensures
        r@ == price_line(label@, p),
{
    let mut s = String::new();
    push_str(&mut s, label);
    match p {
        Some(t) => {
            push_fixed(&mut s, t, 2);
            push_str(&mut s, "\n");
        },
        None => {
            push_str(&mut s, "-----\n");
        },
    }
    s
}

/// The mid price in ticks (rounded down to a whole tick) of best levels.
pub open spec fn mid_ticks(bb: Option<u64>, ba: Option<u64>) -> Option<u64> {
    match (bb, ba) {
        (Some(b), Some(a)) => Some(((b + a) / 2) as u64),
        _ => None,
    }
}

pub open spec fn spread_ticks_of(bb: Option<u64>, ba: Option<u64>) -> Option<u64> {
    match (bb, ba) {
        (Some(b), Some(a)) => Some((a - b) as u64),
        _ => None,
    }
}

/// The order-book part of the diagnostics.
pub open spec fn book_section(
    symbol: Seq<char>,
    state: SyncState,
    bb: Option<u64>,
    ba: Option<u64>,
) -> Seq<char> {
    symbol + " PERPETUAL\n"@ + "Market: Binance USDⓈ-M Futures\n\n"@ + "Order Book\n"@ + "Status: "@
        + state_name(state) + "\n"@ + price_line("Best Bid:  "@, bb) + price_line(
        "Best Ask:  "@,
        ba,
    ) + price_line("Mid:       "@, mid_ticks(bb, ba)) + price_line(
        "Spread:    "@,
        spread_ticks_of(bb, ba),
    ) + "\n"@
}

/// The synchronizer counters part of the diagnostics.
pub open spec fn sync_section(sync: SyncModel, book: BookModel) -> Seq<char> {
    count_line(
        "Last Update ID: "@,
        (match sync.last_applied_u {
            Some(u) => u,
            None => book.last_update_id,
        }) as nat,
    ) + count_line("Events Received: "@, sync.events_received as nat) + count_line(
        "Events Applied:  "@,
        sync.events_applied as nat,
    ) + count_line("Events Ignored:  "@, sync.events_ignored as nat) + count_line(
        "Resyncs: "@,
        sync.resync_count as nat,
    ) + count_line("Reconnects: "@, sync.reconnect_count as nat) + count_line(
        "Sequence Errors: "@,
        sync.sequence_errors as nat,
    ) + "\n"@
}

/// The trades part of the diagnostics.
pub open spec fn trade_section(tp: TradeModel, connected: bool) -> Seq<char> {
    "Trades\n"@ + (if connected {
        "Status: CONNECTED\n"@
    } else {
        "Status: DISCONNECTED\n"@
    }) + count_line("Trades Received: "@, tp.received as nat) + count_line(
        "Trades Processed: "@,
        tp.processed as nat,
    ) + count_line("Duplicates: "@, tp.duplicates as nat) + count_line(
        "Stale: "@,
        tp.stale as nat,
    ) + count_line("Marker Events Rejected: "@, tp.markers_rejected as nat) + count_line(
        "Buy Aggressors: "@,
        tp.buys as nat,
    ) + count_line("Sell Aggressors: "@, tp.sells as nat) + match tp.last_trade {
        Some(t) => "\n"@ + "Last Trade:\n"@ + price_line("  Price:     "@, Some(t.price_ticks))
            + "  Quantity:  "@ + fixed_text(t.quantity_ticks as nat, 4) + "\n"@
            + "  Aggressor: "@ + side_label(t.aggressor) + "\n"@ + count_line(
            "  Trade ID:  "@,
            t.trade_id as nat,
        ),
        None => Seq::empty(),
    }
}

/// The whole diagnostics text, given the best bid and ask of the book.
pub open spec fn diagnostics_text(
    symbol: Seq<char>,
    state: SyncState,
    bb: Option<u64>,
    ba: Option<u64>,
    book: BookModel,
    sync: SyncModel,
    tp: TradeModel,
    connected: bool,
    uptime_secs: u64,
) -> Seq<char> {
    book_section(symbol, state, bb, ba) + sync_section(sync, book) + trade_section(tp, connected)
        + "\n"@ + "Uptime: "@ + decimal_text(uptime_secs as nat) + "s\n"@ + count_line(
        "Buffer size: "@,
        sync.buffer.len(),
    )
}

fn book_lines(symbol: &str, state: SyncState, book: &OrderBook) -> (r: String)
    requires
        not_crossed(book@.bids, book@.asks),
    ensures
        exists|bb: Option<u64>, ba: Option<u64>|
            is_max_key(book@.bids, bb) && is_min_key(book@.asks, ba) && r@ == book_section(
                symbol@,
                state,
                bb,
                ba,
            ),
{
    let bb = book.best_bid();
    let ba = book.best_ask();
    let mid: Option<u64> = match (bb, ba) {
        (Some(b), Some(a)) => Some(((b as u128 + a as u128) / 2) as u64),
        _ => None,
    };
    let spread: Option<u64> = match (bb, ba) {
        (Some(b), Some(a)) => {
            assert(b <= a);
            Some(a - b)
        },
        _ => None,
    };
    let mut s = String::new();
    push_str(&mut s, symbol);
    push_str(&mut s, " PERPETUAL\n");
    push_str(&mut s, "Market: Binance USDⓈ-M Futures\n\n");
    push_str(&mut s, "Order Book\n");
    push_str(&mut s, "Status: ");
    push_str(&mut s, state.name());
    push_str(&mut s, "\n");
    let l = make_price_line("Best Bid:  ", bb);
    push_str(&mut s, l.as_str());
    let l = make_price_line("Best Ask:  ", ba);
    push_str(&mut s, l.as_str());
    let l = make_price_line("Mid:       ", mid);
    push_str(&mut s, l.as_str());
    let l = make_price_line("Spread:    ", spread);
    push_str(&mut s, l.as_str());
    push_str(&mut s, "\n");
    assert(mid == mid_ticks(bb, ba));
    assert(spread == spread_ticks_of(bb, ba));
    assert(s@ == book_section(symbol@, state, bb, ba));
    s
}

fn sync_lines(sync: &Synchronizer, book: &OrderBook) -> (r: String)
    ensures
        r@ == sync_section(sync@, book@),
{
    let last = match sync.last_applied_u() {
        Some(u) => u,
        None => book.last_update_id(),
    };
    let mut s = String::new();
    let l = make_count_line("Last Update ID: ", last);
    push_str(&mut s, l.as_str());
    let l = make_count_line("Events Received: ", sync.events_received());
    push_str(&mut s, l.as_str());
    let l = make_count_line("Events Applied:  ", sync.events_applied());
    push_str(&mut s, l.as_str());
    let l = make_count_line("Events Ignored:  ", sync.events_ignored());
    push_str(&mut s, l.as_str());
    let l = make_count_line("Resyncs: ", sync.resync_count());
    push_str(&mut s, l.as_str());
    let l = make_count_line("Reconnects: ", sync.reconnect_count());
    push_str(&mut s, l.as_str());
    let l = make_count_line("Sequence Errors: ", sync.sequence_errors());
    push_str(&mut s, l.as_str());
    push_str(&mut s, "\n");
    s
}

fn trade_lines(tp: &TradeProcessor, connected: bool) -> (r: String)
    ensures
        r@ == trade_section(tp@, connected),
{
    let mut s = String::new();
    push_str(&mut s, "Trades\n");
    if connected {
        push_str(&mut s, "Status: CONNECTED\n");
    } else {
        push_str(&mut s, "Status: DISCONNECTED\n");
    }
    let l = make_count_line("Trades Received: ", tp.trade_events_received());
    push_str(&mut s, l.as_str());
    let l = make_count_line("Trades Processed: ", tp.trade_events_processed());
    push_str(&mut s, l.as_str());
    let l = make_count_line("Duplicates: ", tp.duplicate_trades());
    push_str(&mut s, l.as_str());
    let l = make_count_line("Stale: ", tp.stale_trades());
    push_str(&mut s, l.as_str());
    let l = make_count_line("Marker Events Rejected: ", tp.marker_events_rejected());
    push_str(&mut s, l.as_str());
    let l = make_count_line("Buy Aggressors: ", tp.buy_aggressor_count());
    push_str(&mut s, l.as_str());
    let l = make_count_line("Sell Aggressors: ", tp.sell_aggressor_count());
    push_str(&mut s, l.as_str());
    let mut tail = String::new();
    match tp.last_trade() {
        Some(t) => {
            push_str(&mut tail, "\n");
            push_str(&mut tail, "Last Trade:\n");
            let l = make_price_line("  Price:     ", Some(t.price_ticks));
            push_str(&mut tail, l.as_str());
            push_str(&mut tail, "  Quantity:  ");
            push_fixed(&mut tail, t.quantity_ticks, 4);
            push_str(&mut tail, "\n");
            push_str(&mut tail, "  Aggressor: ");
            push_str(&mut tail, t.aggressor.label());
            push_str(&mut tail, "\n");
            let l = make_count_line("  Trade ID:  ", t.trade_id);
            push_str(&mut tail, l.as_str());
        },
        None => {},
    }
    push_str(&mut s, tail.as_str());
    s
}

/// The combined diagnostics display (order book, synchronizer, trades),
/// with the uptime in seconds.
///
/// Prices print with two decimals and quantities with four, rounded half
/// up; the mid price is the midpoint of the best levels.
pub fn format_diagnostics(
    symbol: &str,
    state: SyncState,
    book: &OrderBook,
    sync: &Synchronizer,
    trade_proc: &TradeProcessor,
    trade_connected: bool,
    uptime_secs: u64,
) -> (r: String)
    requires
        not_crossed(book@.bids, book@.asks),
    ensures
        exists|bb: Option<u64>, ba: Option<u64>|
            is_max_key(book@.bids, bb) && is_min_key(book@.asks, ba) && r@ == diagnostics_text(
                symbol@,
                state,
                bb,
                ba,
                book@,
                sync@,
                trade_proc@,
                trade_connected,
                uptime_secs,
            ),
{
    let mut out = String::new();
    let part = book_lines(symbol, state, book);
    let ghost (bb, ba) = choose|bb: Option<u64>, ba: Option<u64>|
        is_max_key(book@.bids, bb) && is_min_key(book@.asks, ba) && part@ == book_section(
            symbol@,
            state,
            bb,
            ba,
        );
    push_str(&mut out, part.as_str());
    let part = sync_lines(sync, book);
    push_str(&mut out, part.as_str());
    let part = trade_lines(trade_proc, trade_connected);
    push_str(&mut out, part.as_str());
    push_str(&mut out, "\n");
    push_str(&mut out, "Uptime: ");
    push_decimal(&mut out, uptime_secs as u128);
    push_str(&mut out, "s\n");
    let l = make_count_line("Buffer size: ", sync.buffer_size() as u64);
    push_str(&mut out, l.as_str());
    assert(out@ == diagnostics_text(
        symbol@,
        state,
        bb,
        ba,
        book@,
        sync@,
        trade_proc@,
        trade_connected,
        uptime_secs,
    ));
    out
}

} // verus!
