//! Deterministic replay: recorded events go through the same synchronizer,
//! order book and trade processor as the live stream, so the replayed book
//! matches the recorded one.
use vstd::prelude::*;

use crate::binance::types::DepthUpdate;
use crate::error::OrderBookError;
use crate::orderbook::book::{snapshot_outcome, update_outcome, BookModel, OrderBook};
use crate::orderbook::synchronizer::{
    reconcile_outcome, ProcessResult, SyncModel, SyncState, Synchronizer,
};
use crate::replay::reader::ReplayEvent;
use crate::trades::processor::{
    classify_trade, model_wf, trade_after, TradeModel, TradeProcessResult, TradeProcessor,
};

verus! {

/// Replay counters.
#[derive(Debug, Clone, Copy, PartialEq, Eq, Structural)]
pub struct ReplayCounters {
    pub events_total: u64,
    pub depth_events: u64,
    pub snapshots_applied: u64,
    pub events_applied: u64,
    pub events_ignored: u64,
    pub sequence_errors: u64,
    pub trades_processed: u64,
    pub trades_skipped: u64,
}

/// What one replayed event did.
#[derive(Debug, Clone, Copy, PartialEq, Eq, Structural)]
pub enum ReplayEffect {
    /// A snapshot was applied to the book (whether or not it reconciled).
    Snapshot,
    /// A depth update was applied to the book.
    DepthApplied,
    /// A trade was accepted.
    TradeProcessed,
    /// Nothing reached the book or the trade stream.
    Skipped,
}

/// Abstract state of a [`ReplayCore`].
pub struct ReplayModel {
    pub sync: SyncModel,
    pub book: BookModel,
    pub trades: TradeModel,
    pub counters: ReplayCounters,
}

/// Apply depth updates to a book in order, stopping at the first error.
/// Gives the book, the number applied, and the error if one stopped it.
pub open spec fn apply_updates(b: BookModel, evs: Seq<DepthUpdate>) -> (
    BookModel,
    nat,
    Option<OrderBookError>,
)
    decreases evs.len(),
{
    if evs.len() == 0 {
        (b, 0, None)
    } else {
        let prev = apply_updates(b, evs.drop_last());
        if prev.2 is Some {
            prev
        } else {
            let e = evs.last();
            let out = update_outcome(prev.0, e.bids@, e.asks@, e.final_update_id);
            match out.1 {
                Ok(_) => (out.0, prev.1 + 1, None),
                Err(err) => (out.0, prev.1, Some(err)),
            }
        }
    }
}

/// The synchronizer after a resynchronization is triggered.
pub open spec fn resynced(s: SyncModel) -> SyncModel {
    SyncModel {
        state: SyncState::Buffering,
        buffer: Seq::empty(),
        last_applied_u: None,
        resync_count: (s.resync_count + 1) as u64,
        ..s
    }
}

/// Classification and state of a live event in `Ready` state.
pub open spec fn ready_outcome(o: SyncModel, e: DepthUpdate) -> (SyncModel, ProcessResult) {
    let rec = (o.events_received + 1) as u64;
    match o.last_applied_u {
        Some(prev) if e.previous_final_update_id != prev => (
            SyncModel { events_received: rec, sequence_errors: (o.sequence_errors + 1) as u64, ..o },
            ProcessResult::PuMismatch,
        ),
        Some(prev) if e.final_update_id <= prev => (
            SyncModel { events_received: rec, events_ignored: (o.events_ignored + 1) as u64, ..o },
            ProcessResult::Stale,
        ),
        _ => (
            SyncModel {
                events_received: rec,
                last_applied_u: Some(e.final_update_id),
                events_applied: (o.events_applied + 1) as u64,
                ..o
            },
            ProcessResult::Apply,
        ),
    }
}

/// Every counter can take the next event without overflowing.
pub open spec fn has_room(m: ReplayModel) -> bool {
    let n = m.sync.buffer.len();
    &&& m.counters.depth_events < u64::MAX
    &&& m.counters.snapshots_applied < u64::MAX
    &&& m.counters.events_applied + n + 1 <= u64::MAX
    &&& m.counters.events_ignored < u64::MAX
    &&& m.counters.sequence_errors < u64::MAX
    &&& m.counters.trades_processed < u64::MAX
    &&& m.counters.trades_skipped < u64::MAX
    &&& m.sync.events_received + 2 < u64::MAX
    &&& m.sync.events_applied + n + 1 <= u64::MAX
    &&& m.sync.events_ignored + n + 1 <= u64::MAX
    &&& m.sync.sequence_errors < u64::MAX
    &&& m.sync.resync_count < u64::MAX
    &&& m.trades.received < u64::MAX
}

/// The replay pipeline: synchronizer, order book, trade processor and
/// counters.
pub struct ReplayCore {
    sync: Synchronizer,
    book: OrderBook,
    trades: TradeProcessor,
    counters: ReplayCounters,
}

impl View for ReplayCore {
    type V = ReplayModel;

    closed spec fn view(&self) -> ReplayModel {
        ReplayModel {
            sync: self.sync@,
            book: self.book@,
            trades: self.trades@,
            counters: self.counters,
        }
    }
}

proof fn lemma_apply_updates_count(b: BookModel, evs: Seq<DepthUpdate>)
    ensures
        apply_updates(b, evs).1 <= evs.len(),
    decreases evs.len(),
{
    if evs.len() > 0 {
        lemma_apply_updates_count(b, evs.drop_last());
    }
}

pub(crate) proof fn lemma_apply_updates_stops(b: BookModel, evs: Seq<DepthUpdate>, k: int)
    requires
        0 <= k <= evs.len(),
        apply_updates(b, evs.take(k)).2 is Some,
    ensures
        apply_updates(b, evs) == apply_updates(b, evs.take(k)),
    decreases evs.len() - k,
{
    if k < evs.len() {
        assert(evs.take(k + 1).drop_last() =~= evs.take(k));
        lemma_apply_updates_stops(b, evs, k + 1);
    } else {
        assert(evs.take(k) =~= evs);
    }
}

impl ReplayCore {
    /// A pipeline whose depth stream has just connected (buffering).
    pub fn new(events_total: u64) -> (r: Self)
        ensures
            r.wf(),
            r@.sync.state == SyncState::Buffering,
            r@.sync.buffer.len() == 0,
            r@.sync.events_received == 0 && r@.sync.events_applied == 0,
            r@.sync.events_ignored == 0 && r@.sync.sequence_errors == 0,
            r@.sync.resync_count == 0 && r@.sync.last_applied_u is None,
            r@.book == (BookModel {
                bids: Map::empty(),
                asks: Map::empty(),
                last_update_id: 0,
                initialized: false,
            }),
            r@.trades.received == 0,
            r@.counters == (ReplayCounters {
                events_total,
                depth_events: 0,
                snapshots_applied: 0,
                events_applied: 0,
                events_ignored: 0,
                sequence_errors: 0,
                trades_processed: 0,
                trades_skipped: 0,
            }),
    {
        let mut sync = Synchronizer::new();
        sync.on_connected();
        ReplayCore {
            sync,
            book: OrderBook::new(),
            trades: TradeProcessor::new(),
            counters: ReplayCounters {
                events_total,
                depth_events: 0,
                snapshots_applied: 0,
                events_applied: 0,
                events_ignored: 0,
                sequence_errors: 0,
                trades_processed: 0,
                trades_skipped: 0,
            },
        }
    }

    /// The trade processor's invariants hold.
    pub closed spec fn wf(&self) -> bool {
        model_wf(self.trades@)
    }

    /// Whether every counter can take the next event.
    pub fn has_room(&self) -> (r: bool)
        ensures
            r == has_room(self@),
    {
        let n = self.sync.buffer_size() as u128;
        let max = u64::MAX as u128;
        let c = &self.counters;
        c.depth_events < u64::MAX && c.snapshots_applied < u64::MAX && (c.events_applied as u128)
            + n + 1 <= max && c.events_ignored < u64::MAX && c.sequence_errors < u64::MAX
            && c.trades_processed < u64::MAX && c.trades_skipped < u64::MAX && (
        self.sync.events_received() as u128) + 2 < max && (self.sync.events_applied() as u128) + n
            + 1 <= max && (self.sync.events_ignored() as u128) + n + 1 <= max
            && self.sync.sequence_errors() < u64::MAX && self.sync.resync_count() < u64::MAX
            && self.trades.trade_events_received() < u64::MAX
    }

    pub fn sync(&self) -> (r: &Synchronizer)
        ensures
            r@ == self@.sync,
    {
        &self.sync
    }

    pub fn book(&self) -> (r: &OrderBook)
        ensures
            r@ == self@.book,
    {
        &self.book
    }

    pub fn trades(&self) -> (r: &TradeProcessor)
        ensures
            r@ == self@.trades,
    {
        &self.trades
    }

    pub fn counters(&self) -> (r: ReplayCounters)
        ensures
            r == self@.counters,
    {
        self.counters
    }

    /// Apply the events that reconciliation handed back, in order.
    fn apply_reconciled(&mut self, events: &Vec<DepthUpdate>) -> (r: Result<(), OrderBookError>)
        requires
            old(self).counters.events_applied + events@.len() <= u64::MAX,
        ensures
            ({
                let out = apply_updates(old(self)@.book, events@);
                &&& final(self)@ == ReplayModel {
                    book: out.0,
                    counters: ReplayCounters {
                        events_applied: (old(self)@.counters.events_applied + out.1) as u64,
                        ..old(self)@.counters
                    },
                    ..old(self)@
                }
                &&& match out.2 {
                    Some(e) => r == Err::<(), OrderBookError>(e),
                    None => r is Ok,
                }
            }),
    {
        let ghost o = self@;
        let mut i: usize = 0;
        let mut result: Result<(), OrderBookError> = Ok(());
        while i < events.len() && result.is_ok()
            invariant
                0 <= i <= events@.len(),
                o.counters.events_applied + events@.len() <= u64::MAX,
                result is Ok ==> {
                    &&& apply_updates(o.book, events@.take(i as int)).2 is None
                    &&& apply_updates(o.book, events@.take(i as int)).1 == i
                    &&& self@ == ReplayModel {
                        book: apply_updates(o.book, events@.take(i as int)).0,
                        counters: ReplayCounters {
                            events_applied: (o.counters.events_applied + i) as u64,
                            ..o.counters
                        },
                        ..o
                    }
                },
                result matches Err(e) ==> {
                    let out = apply_updates(o.book, events@);
                    &&& out.2 == Some(e)
                    &&& self@ == ReplayModel {
                        book: out.0,
                        counters: ReplayCounters {
                            events_applied: (o.counters.events_applied + out.1) as u64,
                            ..o.counters
                        },
                        ..o
                    }
                },
            decreases events@.len() - i,
        {
            let e = &events[i];
            proof {
                assert(events@.take(i + 1).drop_last() =~= events@.take(i as int));
                assert(events@.take(i + 1).last() == events@[i as int]);
            }
            let res = self.book.apply_depth_update(&e.bids, &e.asks, e.final_update_id);
            match res {
                Err(err) => {
                    proof {
                        lemma_apply_updates_stops(o.book, events@, i + 1);
                    }
                    result = Err(err);
                },
                Ok(()) => {
                    self.counters.events_applied = self.counters.events_applied + 1;
                },
            }
            i = i + 1;
        }
        proof {
            if result is Ok {
                assert(events@.take(events@.len() as int) =~= events@);
            }
        }
        result
    }

    /// Replay one event.
    ///
    /// A snapshot is applied to the book and reconciled with the buffered
    /// depth events (a failed reconciliation counts a sequence error and
    /// triggers a resync). A depth event is buffered while the book is not
    /// ready and checked for continuity once it is. A trade goes through the
    /// duplicate and ordering checks. An order-book error stops the replay.
    #[verifier::rlimit(40)]
    pub fn step(&mut self, event: &ReplayEvent) -> (r: Result<ReplayEffect, OrderBookError>)
        requires
            old(self).wf(),
            has_room(old(self)@),
        ensures
            final(self).wf(),
            ({
                let o = old(self)@;
                let f = final(self)@;
                match *event {
                    ReplayEvent::Snapshot { update_id, bids, asks, .. } => {
                        let c1 = ReplayCounters {
                            snapshots_applied: (o.counters.snapshots_applied + 1) as u64,
                            ..o.counters
                        };
                        let s1 = SyncModel { state: SyncState::SnapshotLoading, ..o.sync };
                        let snap = snapshot_outcome(o.book, bids@, asks@, update_id);
                        match snap.1 {
                            Err(e) => {
                                &&& r == Err::<ReplayEffect, OrderBookError>(e)
                                &&& f == ReplayModel { sync: s1, book: snap.0, counters: c1, ..o }
                            },
                            Ok(_) => {
                                let rec = reconcile_outcome(s1, update_id);
                                match rec.1 {
                                    None => {
                                        &&& r == Ok::<ReplayEffect, OrderBookError>(
                                            ReplayEffect::Snapshot,
                                        )
                                        &&& f == ReplayModel {
                                            sync: resynced(rec.0),
                                            book: snap.0,
                                            counters: ReplayCounters {
                                                sequence_errors: (c1.sequence_errors + 1) as u64,
                                                ..c1
                                            },
                                            ..o
                                        }
                                    },
                                    Some(v) => {
                                        let out = apply_updates(snap.0, v);
                                        &&& r == match out.2 {
                                            Some(e) => Err::<ReplayEffect, OrderBookError>(e),
                                            None => Ok(ReplayEffect::Snapshot),
                                        }
                                        &&& f == ReplayModel {
                                            sync: rec.0,
                                            book: out.0,
                                            counters: ReplayCounters {
                                                events_applied: (c1.events_applied + out.1) as u64,
                                                ..c1
                                            },
                                            ..o
                                        }
                                    },
                                }
                            },
                        }
                    },
                    ReplayEvent::Depth { update, .. } => {
                        let c1 = ReplayCounters {
                            depth_events: (o.counters.depth_events + 1) as u64,
                            ..o.counters
                        };
                        match o.sync.state {
                            SyncState::Buffering => {
                                &&& r == Ok::<ReplayEffect, OrderBookError>(ReplayEffect::Skipped)
                                &&& f.sync.buffer.len() == o.sync.buffer.len() + 1
                                &&& f.sync.buffer.take(o.sync.buffer.len() as int)
                                    == o.sync.buffer
                                &&& f.sync.buffer.last().same_as(&update)
                                &&& f == ReplayModel {
                                    sync: SyncModel {
                                        buffer: f.sync.buffer,
                                        events_received: (o.sync.events_received + 1) as u64,
                                        ..o.sync
                                    },
                                    counters: c1,
                                    ..o
                                }
                            },
                            SyncState::Reconnecting
                            | SyncState::SnapshotLoading
                            | SyncState::Synchronizing => {
                                &&& r == Ok::<ReplayEffect, OrderBookError>(ReplayEffect::Skipped)
                                &&& f == ReplayModel { counters: c1, ..o }
                            },
                            SyncState::Ready => {
                                let live = ready_outcome(o.sync, update);
                                match live.1 {
                                    ProcessResult::Apply => {
                                        let upd = update_outcome(
                                            o.book,
                                            update.bids@,
                                            update.asks@,
                                            update.final_update_id,
                                        );
                                        match upd.1 {
                                            Err(e) => {
                                                &&& r == Err::<ReplayEffect, OrderBookError>(e)
                                                &&& f == ReplayModel {
                                                    sync: live.0,
                                                    book: upd.0,
                                                    counters: c1,
                                                    ..o
                                                }
                                            },
                                            Ok(_) => {
                                                &&& r == Ok::<ReplayEffect, OrderBookError>(
                                                    ReplayEffect::DepthApplied,
                                                )
                                                &&& f == ReplayModel {
                                                    sync: live.0,
                                                    book: upd.0,
                                                    counters: ReplayCounters {
                                                        events_applied: (c1.events_applied
                                                            + 1) as u64,
                                                        ..c1
                                                    },
                                                    ..o
                                                }
                                            },
                                        }
                                    },
                                    ProcessResult::PuMismatch => {
                                        &&& r == Ok::<ReplayEffect, OrderBookError>(
                                            ReplayEffect::Skipped,
                                        )
                                        &&& f == ReplayModel {
                                            sync: resynced(live.0),
                                            counters: ReplayCounters {
                                                sequence_errors: (c1.sequence_errors + 1) as u64,
                                                ..c1
                                            },
                                            ..o
                                        }
                                    },
                                    _ => {
                                        &&& r == Ok::<ReplayEffect, OrderBookError>(
                                            ReplayEffect::Skipped,
                                        )
                                        &&& f == ReplayModel {
                                            sync: live.0,
                                            counters: ReplayCounters {
                                                events_ignored: (c1.events_ignored + 1) as u64,
                                                ..c1
                                            },
                                            ..o
                                        }
                                    },
                                }
                            },
                            _ => {
                                &&& r == Ok::<ReplayEffect, OrderBookError>(ReplayEffect::Skipped)
                                &&& f == ReplayModel {
                                    counters: ReplayCounters {
                                        events_ignored: (c1.events_ignored + 1) as u64,
                                        ..c1
                                    },
                                    ..o
                                }
                            },
                        }
                    },
                    ReplayEvent::Trade { event: t, .. } => {
                        let accepted = classify_trade(o.trades, t.trade_id)
                            == TradeProcessResult::Processed;
                        &&& r == Ok::<ReplayEffect, OrderBookError>(
                            if accepted {
                                ReplayEffect::TradeProcessed
                            } else {
                                ReplayEffect::Skipped
                            },
                        )
                        &&& f == ReplayModel {
                            trades: trade_after(o.trades, t),
                            counters: if accepted {
                                ReplayCounters {
                                    trades_processed: (o.counters.trades_processed + 1) as u64,
                                    ..o.counters
                                }
                            } else {
                                ReplayCounters {
                                    trades_skipped: (o.counters.trades_skipped + 1) as u64,
                                    ..o.counters
                                }
                            },
                            ..o
                        }
                    },
                }
            }),
    {
        match event {
            ReplayEvent::Snapshot { update_id, bids, asks, .. } => {
                self.counters.snapshots_applied = self.counters.snapshots_applied + 1;
                self.sync.on_snapshot_loading();
                let res = self.book.apply_snapshot(bids, asks, *update_id);
                if let Err(e) = res {
                    return Err(e);
                }
                match self.sync.reconcile(*update_id) {
                    Ok(events) => {
                        proof {
                            reconcile_len_bound(old(self)@.sync, *update_id);
                        }
                        self.apply_reconciled(&events)?;
                        Ok(ReplayEffect::Snapshot)
                    },
                    Err(_) => {
                        self.counters.sequence_errors = self.counters.sequence_errors + 1;
                        self.sync.trigger_resync();
                        Ok(ReplayEffect::Snapshot)
                    },
                }
            },
            ReplayEvent::Depth { update, .. } => {
                self.counters.depth_events = self.counters.depth_events + 1;
                match self.sync.state() {
                    SyncState::Buffering
                    | SyncState::Reconnecting
                    | SyncState::SnapshotLoading
                    | SyncState::Synchronizing => {
                        self.sync.buffer_event(update.copy_update());
                        proof {
                            if old(self)@.sync.state == SyncState::Buffering {
                                assert(self@.sync.buffer.take(old(self)@.sync.buffer.len() as int)
                                    =~= old(self)@.sync.buffer);
                            }
                        }
                        Ok(ReplayEffect::Skipped)
                    },
                    SyncState::Ready => match self.sync.process_live_event(update) {
                        ProcessResult::Apply => {
                            let res = self.book.apply_depth_update(
                                &update.bids,
                                &update.asks,
                                update.final_update_id,
                            );
                            if let Err(e) = res {
                                return Err(e);
                            }
                            self.counters.events_applied = self.counters.events_applied + 1;
                            Ok(ReplayEffect::DepthApplied)
                        },
                        ProcessResult::Stale | ProcessResult::Ignored => {
                            self.counters.events_ignored = self.counters.events_ignored + 1;
                            Ok(ReplayEffect::Skipped)
                        },
                        ProcessResult::PuMismatch => {
                            self.counters.sequence_errors = self.counters.sequence_errors + 1;
                            self.sync.trigger_resync();
                            Ok(ReplayEffect::Skipped)
                        },
                        ProcessResult::Buffered => Ok(ReplayEffect::Skipped),
                    },
                    _ => {
                        self.counters.events_ignored = self.counters.events_ignored + 1;
                        Ok(ReplayEffect::Skipped)
                    },
                }
            },
            ReplayEvent::Trade { event: t, .. } => {
                match self.trades.process(t.copy_event()) {
                    TradeProcessResult::Processed => {
                        self.counters.trades_processed = self.counters.trades_processed + 1;
                        Ok(ReplayEffect::TradeProcessed)
                    },
                    _ => {
                        self.counters.trades_skipped = self.counters.trades_skipped + 1;
                        Ok(ReplayEffect::Skipped)
                    },
                }
            },
        }
    }
}

/// The events that reconciliation hands back come from the buffer.
proof fn reconcile_len_bound(o: SyncModel, l: u64)
    ensures
        reconcile_outcome(o, l).1 matches Some(v) ==> v.len() <= o.buffer.len(),
{
    crate::orderbook::synchronizer::lemma_reconcile_bounds(o.buffer, l);
}

} // verus!
