//! Trade ingestion: duplicate and ordering checks plus counters.
use std::collections::VecDeque;
use vstd::prelude::*;

use crate::trades::trade::{AggressorSide, TradeEvent};

verus! {

broadcast use vstd::std_specs::vecdeque::group_vec_dequeue_axioms;

/// How many recent trade ids are kept for duplicate detection.
pub const DUPLICATE_WINDOW: usize = 4096;

/// What happened to one trade event.
#[derive(Debug, Clone, Copy, PartialEq, Eq, Structural)]
pub enum TradeProcessResult {
    /// The trade was accepted.
    Processed,
    /// The trade id is in the recent window.
    Duplicate,
    /// The trade id is below the last accepted id.
    Stale,
    /// The trade was ignored for another reason.
    Ignored,
}

/// Abstract state of a [`TradeProcessor`].
pub struct TradeModel {
    /// The last accepted trade id.
    pub last_trade_id: Option<u64>,
    /// The window of recently accepted ids, oldest first.
    pub recent_ids: Seq<u64>,
    pub received: u64,
    pub processed: u64,
    pub duplicates: u64,
    pub stale: u64,
    pub malformed: u64,
    pub markers_rejected: u64,
    pub reconnects: u64,
    pub buys: u64,
    pub sells: u64,
    /// The last accepted trade.
    pub last_trade: Option<TradeEvent>,
}

/// The window after accepting `id`: appended, then trimmed to its limit.
pub open spec fn window_after(recent: Seq<u64>, id: u64) -> Seq<u64> {
    let s = recent.push(id);
    if s.len() > DUPLICATE_WINDOW {
        s.drop_first()
    } else {
        s
    }
}

/// How a trade with id `id` is classified in state `m`.
pub open spec fn classify_trade(m: TradeModel, id: u64) -> TradeProcessResult {
    if m.recent_ids.contains(id) {
        TradeProcessResult::Duplicate
    } else if m.last_trade_id matches Some(l) && id < l {
        TradeProcessResult::Stale
    } else {
        TradeProcessResult::Processed
    }
}

/// The state after processing `e` in state `m`.
pub open spec fn trade_after(m: TradeModel, e: TradeEvent) -> TradeModel {
    match classify_trade(m, e.trade_id) {
        TradeProcessResult::Duplicate => TradeModel {
            received: (m.received + 1) as u64,
            duplicates: (m.duplicates + 1) as u64,
            ..m
        },
        TradeProcessResult::Stale => TradeModel {
            received: (m.received + 1) as u64,
            stale: (m.stale + 1) as u64,
            ..m
        },
        _ => TradeModel {
            last_trade_id: Some(e.trade_id),
            recent_ids: window_after(m.recent_ids, e.trade_id),
            received: (m.received + 1) as u64,
            processed: (m.processed + 1) as u64,
            buys: if e.aggressor == AggressorSide::Buy {
                (m.buys + 1) as u64
            } else {
                m.buys
            },
            sells: if e.aggressor == AggressorSide::Sell {
                (m.sells + 1) as u64
            } else {
                m.sells
            },
            last_trade: Some(e),
            ..m
        },
    }
}

/// A fresh processor: no trade seen, every counter zero.
pub open spec fn initial_trade_model() -> TradeModel {
    TradeModel {
        last_trade_id: None,
        recent_ids: Seq::empty(),
        received: 0,
        processed: 0,
        duplicates: 0,
        stale: 0,
        malformed: 0,
        markers_rejected: 0,
        reconnects: 0,
        buys: 0,
        sells: 0,
        last_trade: None,
    }
}

/// The invariants every reachable processor state keeps.
///
/// The window holds at most `DUPLICATE_WINDOW` ids in strictly increasing
/// order and ends with the last accepted id; every received trade is counted
/// exactly once as processed, duplicate or stale; every processed trade is
/// either a buy or a sell.
pub open spec fn model_wf(m: TradeModel) -> bool {
    &&& m.recent_ids.len() <= DUPLICATE_WINDOW
    &&& forall|i: int, j: int|
        0 <= i < j < m.recent_ids.len() ==> #[trigger] m.recent_ids[i] < #[trigger] m.recent_ids[j]
    &&& (m.last_trade_id is None <==> m.recent_ids.len() == 0)
    &&& m.last_trade_id matches Some(l) ==> l == m.recent_ids.last()
    &&& (m.last_trade is None <==> m.last_trade_id is None)
    &&& m.last_trade matches Some(t) ==> m.last_trade_id == Some(t.trade_id)
    &&& m.received == m.processed + m.duplicates + m.stale
    &&& m.processed == m.buys + m.sells
}

/// A trade that was accepted, or already flagged as a duplicate, is a
/// duplicate when the same id comes again right after: an accepted id
/// enters the window of recent ids.
pub proof fn lemma_repeat_is_duplicate(m: TradeModel, e: TradeEvent)
    requires
        model_wf(m),
        classify_trade(m, e.trade_id) != TradeProcessResult::Stale,
    ensures
        classify_trade(trade_after(m, e), e.trade_id) == TradeProcessResult::Duplicate,
{
    if classify_trade(m, e.trade_id) == TradeProcessResult::Processed {
        let s = m.recent_ids.push(e.trade_id);
        assert(s[s.len() - 1] == e.trade_id);
        if s.len() > DUPLICATE_WINDOW {
            assert(s.drop_first()[s.drop_first().len() - 1] == e.trade_id);
        }
        assert(window_after(m.recent_ids, e.trade_id).contains(e.trade_id));
    }
}

/// Every state reached by processing trades keeps the invariants: received
/// trades are each counted once as processed, duplicate or stale, processed
/// ones once as a buy or a sell; and the last accepted id never goes down.
pub proof fn lemma_process_keeps_invariants(m: TradeModel, e: TradeEvent)
    requires
        model_wf(m),
        m.received < u64::MAX,
    ensures
        model_wf(trade_after(m, e)),
        m.last_trade_id matches Some(l) ==> trade_after(m, e).last_trade_id matches Some(l2)
            && l <= l2,
{
    let id = e.trade_id;
    if classify_trade(m, id) == TradeProcessResult::Processed {
        let r = m.recent_ids;
        let s = r.push(id);
        if let Some(l) = m.last_trade_id {
            assert(r[r.len() - 1] == l);
            assert(id != l) by {
                assert(r.contains(r[r.len() - 1]));
            }
        }
        assert forall|i: int, j: int| 0 <= i < j < s.len() implies #[trigger] s[i] < #[trigger] s[j] by {
            if j == s.len() - 1 {
                assert(r[i] <= r[r.len() - 1]) by {
                    if i < r.len() - 1 {
                        assert(r[i] < r[r.len() - 1]);
                    }
                }
                assert(!r.contains(id));
                assert(r[r.len() - 1] != id) by {
                    assert(r.contains(r[r.len() - 1]));
                }
                assert(r[i] != id) by {
                    assert(r.contains(r[i]));
                }
            } else {
                assert(s[i] == r[i] && s[j] == r[j]);
            }
        }
        let w = window_after(r, id);
        if s.len() > DUPLICATE_WINDOW {
            assert forall|i: int, j: int| 0 <= i < j < w.len() implies #[trigger] w[i] < #[trigger] w[j] by {
                assert(w[i] == s[i + 1] && w[j] == s[j + 1]);
            }
        }
        assert(w.last() == id);
    }
}

/// One call on a trade processor.
pub enum ProcessorCall {
    /// `process` of a trade.
    Process(TradeEvent),
    /// `on_trade_reconnect`.
    Reconnect,
    /// `record_malformed`.
    Malformed,
    /// `record_marker_rejected`.
    MarkerRejected,
}

/// The state after one call.
pub open spec fn after_call(m: TradeModel, c: ProcessorCall) -> TradeModel {
    match c {
        ProcessorCall::Process(e) => trade_after(m, e),
        ProcessorCall::Reconnect => TradeModel { reconnects: (m.reconnects + 1) as u64, ..m },
        ProcessorCall::Malformed => TradeModel { malformed: (m.malformed + 1) as u64, ..m },
        ProcessorCall::MarkerRejected => TradeModel {
            markers_rejected: (m.markers_rejected + 1) as u64,
            ..m
        },
    }
}

/// The counter a call raises has room.
pub open spec fn call_fits(m: TradeModel, c: ProcessorCall) -> bool {
    match c {
        ProcessorCall::Process(_) => m.received < u64::MAX,
        ProcessorCall::Reconnect => m.reconnects < u64::MAX,
        ProcessorCall::Malformed => m.malformed < u64::MAX,
        ProcessorCall::MarkerRejected => m.markers_rejected < u64::MAX,
    }
}

/// The last accepted id of `b` is no lower than that of `a`.
pub open spec fn id_not_lowered(a: TradeModel, b: TradeModel) -> bool {
    a.last_trade_id matches Some(l) ==> (b.last_trade_id matches Some(l2) && l <= l2)
}

/// The state after the calls `cs`, in order, from `m`.
pub open spec fn after_calls(m: TradeModel, cs: Seq<ProcessorCall>) -> TradeModel
    decreases cs.len(),
{
    if cs.len() == 0 {
        m
    } else {
        after_call(after_calls(m, cs.drop_last()), cs.last())
    }
}

/// Every state reached from a fresh processor by calls whose counters have
/// room keeps the invariants (each received trade counted once as processed,
/// duplicate or stale; each processed one once as a buy or a sell), and the
/// last accepted id never goes down from one call to the next.
pub proof fn lemma_calls_keep_invariants(cs: Seq<ProcessorCall>)
    requires
        forall|i: int|
            0 <= i < cs.len() ==> call_fits(
                #[trigger] after_calls(initial_trade_model(), cs.take(i)),
                cs[i],
            ),
    ensures
        model_wf(after_calls(initial_trade_model(), cs)),
        forall|i: int|
            0 <= i < cs.len() ==> id_not_lowered(
                #[trigger] after_calls(initial_trade_model(), cs.take(i)),
                after_calls(initial_trade_model(), cs.take(i + 1)),
            ),
    decreases cs.len(),
{
    let m0 = initial_trade_model();
    if cs.len() > 0 {
        let pre = cs.drop_last();
        let last = cs.len() - 1;
        assert forall|i: int| 0 <= i < pre.len() implies call_fits(
            #[trigger] after_calls(m0, pre.take(i)),
            pre[i],
        ) by {
            assert(pre.take(i) =~= cs.take(i));
            assert(call_fits(after_calls(m0, cs.take(i)), cs[i]));
        }
        lemma_calls_keep_invariants(pre);
        assert(cs.take(last) =~= pre);
        assert(call_fits(after_calls(m0, cs.take(last)), cs[last]));
        let m = after_calls(m0, pre);
        match cs.last() {
            ProcessorCall::Process(e) => {
                lemma_process_keeps_invariants(m, e);
            },
            _ => {},
        }
        assert(cs.take(last + 1) =~= cs);
        assert forall|i: int| 0 <= i < cs.len() implies id_not_lowered(
            #[trigger] after_calls(m0, cs.take(i)),
            after_calls(m0, cs.take(i + 1)),
        ) by {
            if i < last {
                assert(pre.take(i) =~= cs.take(i));
                assert(pre.take(i + 1) =~= cs.take(i + 1));
            } else {
                assert(cs.take(i) =~= pre);
                assert(cs.take(i + 1) =~= cs);
            }
        }
    } else {
        assert(model_wf(m0));
    }
}

/// Trade processor: duplicate detection, ordering checks and counters.
///
/// Independent of the order book.
pub struct TradeProcessor {
    last_trade_id: Option<u64>,
    recent_ids: VecDeque<u64>,
    trade_events_received: u64,
    trade_events_processed: u64,
    duplicate_trades: u64,
    stale_trades: u64,
    malformed_trade_events: u64,
    marker_events_rejected: u64,
    trade_reconnect_count: u64,
    buy_aggressor_count: u64,
    sell_aggressor_count: u64,
    last_trade: Option<TradeEvent>,
}

impl View for TradeProcessor {
    type V = TradeModel;

    closed spec fn view(&self) -> TradeModel {
        TradeModel {
            last_trade_id: self.last_trade_id,
            recent_ids: self.recent_ids@,
            received: self.trade_events_received,
            processed: self.trade_events_processed,
            duplicates: self.duplicate_trades,
            stale: self.stale_trades,
            malformed: self.malformed_trade_events,
            markers_rejected: self.marker_events_rejected,
            reconnects: self.trade_reconnect_count,
            buys: self.buy_aggressor_count,
            sells: self.sell_aggressor_count,
            last_trade: self.last_trade,
        }
    }
}

impl TradeProcessor {
    pub fn new() -> (r: Self)
        ensures
            r@ == initial_trade_model(),
            model_wf(r@),
    {
        TradeProcessor {
            last_trade_id: None,
            recent_ids: VecDeque::with_capacity(DUPLICATE_WINDOW),
            trade_events_received: 0,
            trade_events_processed: 0,
            duplicate_trades: 0,
            stale_trades: 0,
            malformed_trade_events: 0,
            marker_events_rejected: 0,
            trade_reconnect_count: 0,
            buy_aggressor_count: 0,
            sell_aggressor_count: 0,
            last_trade: None,
        }
    }

    fn window_contains(&self, id: u64) -> (r: bool)
        ensures
            r == self@.recent_ids.contains(id),
    {
        let mut i: usize = 0;
        while i < self.recent_ids.len()
            invariant
                i <= self.recent_ids@.len(),
                forall|j: int| 0 <= j < i ==> self.recent_ids@[j] != id,
            decreases self.recent_ids@.len() - i,
        {
            if self.recent_ids[i] == id {
                assert(self.recent_ids@[i as int] == id);
                return true;
            }
            i = i + 1;
        }
        false
    }

    /// Process one normalized trade.
    ///
    /// A trade whose id is in the recent window is a duplicate; one whose id
    /// is below the last accepted id is stale; any other is accepted: its id
    /// enters the window (dropping the oldest beyond `DUPLICATE_WINDOW`), its
    /// side is counted and it becomes the last trade.
    pub fn process(&mut self, event: TradeEvent) -> (r: TradeProcessResult)
        requires
            model_wf(old(self)@),
            old(self)@.received < u64::MAX,
        ensures
            model_wf(final(self)@),
            r == classify_trade(old(self)@, event.trade_id),
            final(self)@ == trade_after(old(self)@, event),
            ({
                let o = old(self)@;
                let f = final(self)@;
                match r {
                    TradeProcessResult::Duplicate => f == TradeModel {
                        received: (o.received + 1) as u64,
                        duplicates: (o.duplicates + 1) as u64,
                        ..o
                    },
                    TradeProcessResult::Stale => f == TradeModel {
                        received: (o.received + 1) as u64,
                        stale: (o.stale + 1) as u64,
                        ..o
                    },
                    _ => f == TradeModel {
                        last_trade_id: Some(event.trade_id),
                        recent_ids: window_after(o.recent_ids, event.trade_id),
                        received: (o.received + 1) as u64,
                        processed: (o.processed + 1) as u64,
                        buys: if event.aggressor == AggressorSide::Buy {
                            (o.buys + 1) as u64
                        } else {
                            o.buys
                        },
                        sells: if event.aggressor == AggressorSide::Sell {
                            (o.sells + 1) as u64
                        } else {
                            o.sells
                        },
                        last_trade: Some(event),
                        ..o
                    },
                }
            }),
            r is Processed ==> (old(self)@.last_trade_id matches Some(l) ==> l < event.trade_id),
    {
        let ghost o = self@;
        self.trade_events_received = self.trade_events_received + 1;
        if self.window_contains(event.trade_id) {
            self.duplicate_trades = self.duplicate_trades + 1;
            return TradeProcessResult::Duplicate;
        }
        if let Some(last_id) = self.last_trade_id {
            if event.trade_id < last_id {
                self.stale_trades = self.stale_trades + 1;
                return TradeProcessResult::Stale;
            }
            proof {
                assert(o.recent_ids.last() == last_id);
                assert(o.recent_ids.contains(last_id));
            }
        }
        self.last_trade_id = Some(event.trade_id);
        self.recent_ids.push_back(event.trade_id);
        if self.recent_ids.len() > DUPLICATE_WINDOW {
            self.recent_ids.pop_front();
        }
        proof {
            let s = o.recent_ids.push(event.trade_id);
            assert forall|i: int, j: int| 0 <= i < j < s.len() implies #[trigger] s[i] < #[trigger] s[j] by {
                if j == s.len() - 1 {
                    assert(o.recent_ids[i] <= o.recent_ids.last());
                }
            }
            if s.len() > DUPLICATE_WINDOW {
                assert(self.recent_ids@ =~= s.drop_first());
                assert forall|i: int, j: int|
                    0 <= i < j < s.drop_first().len() implies #[trigger] s.drop_first()[i]
                    < #[trigger] s.drop_first()[j] by {
                    assert(s[i + 1] < s[j + 1]);
                }
            } else {
                assert(self.recent_ids@ =~= s);
            }
        }
        match event.aggressor {
            AggressorSide::Buy => self.buy_aggressor_count = self.buy_aggressor_count + 1,
            AggressorSide::Sell => self.sell_aggressor_count = self.sell_aggressor_count + 1,
        }
        self.trade_events_processed = self.trade_events_processed + 1;
        self.last_trade = Some(event);
        TradeProcessResult::Processed
    }

    /// Record that the trade stream reconnected.
    pub fn on_trade_reconnect(&mut self)
        requires
            old(self)@.reconnects < u64::MAX,
        ensures
            model_wf(old(self)@) ==> model_wf(final(self)@),
            final(self)@ == (TradeModel {
                reconnects: (old(self)@.reconnects + 1) as u64,
                ..old(self)@
            }),
    {
        self.trade_reconnect_count = self.trade_reconnect_count + 1;
    }

    /// Record a malformed trade event.
    pub fn record_malformed(&mut self)
        requires
            old(self)@.malformed < u64::MAX,
        ensures
            model_wf(old(self)@) ==> model_wf(final(self)@),
            final(self)@ == (TradeModel { malformed: (old(self)@.malformed + 1) as u64, ..old(self)@ }),
    {
        self.malformed_trade_events = self.malformed_trade_events + 1;
    }

    /// Record a synthetic marker event that was rejected before processing.
    pub fn record_marker_rejected(&mut self)
        requires
            old(self)@.markers_rejected < u64::MAX,
        ensures
            model_wf(old(self)@) ==> model_wf(final(self)@),
            final(self)@ == (TradeModel {
                markers_rejected: (old(self)@.markers_rejected + 1) as u64,
                ..old(self)@
            }),
    {
        self.marker_events_rejected = self.marker_events_rejected + 1;
    }

    pub fn trade_events_received(&self) -> (r: u64)
        ensures
            r == self@.received,
    {
        self.trade_events_received
    }

    pub fn trade_events_processed(&self) -> (r: u64)
        ensures
            r == self@.processed,
    {
        self.trade_events_processed
    }

    pub fn duplicate_trades(&self) -> (r: u64)
        ensures
            r == self@.duplicates,
    {
        self.duplicate_trades
    }

    pub fn stale_trades(&self) -> (r: u64)
        ensures
            r == self@.stale,
    {
        self.stale_trades
    }

    pub fn malformed_trade_events(&self) -> (r: u64)
        ensures
            r == self@.malformed,
    {
        self.malformed_trade_events
    }

    pub fn marker_events_rejected(&self) -> (r: u64)
        ensures
            r == self@.markers_rejected,
    {
        self.marker_events_rejected
    }

    pub fn trade_reconnect_count(&self) -> (r: u64)
        ensures
            r == self@.reconnects,
    {
        self.trade_reconnect_count
    }

    pub fn last_trade_id(&self) -> (r: Option<u64>)
        ensures
            r == self@.last_trade_id,
    {
        self.last_trade_id
    }

    pub fn last_trade(&self) -> (r: Option<&TradeEvent>)
        ensures
            match r {
                Some(t) => self@.last_trade == Some(*t),
                None => self@.last_trade is None,
            },
    {
        self.last_trade.as_ref()
    }

    pub fn buy_aggressor_count(&self) -> (r: u64)
        ensures
            r == self@.buys,
    {
        self.buy_aggressor_count
    }

    pub fn sell_aggressor_count(&self) -> (r: u64)
        ensures
            r == self@.sells,
    {
        self.sell_aggressor_count
    }
}

impl Default for TradeProcessor {
    fn default() -> (r: Self)
        ensures
            r@ == initial_trade_model(),
            model_wf(r@),
    {
        TradeProcessor::new()
    }
}

} // verus!
