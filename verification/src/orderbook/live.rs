//! The live order book: the synchronizer's decisions applied to the book as
//! depth events and REST snapshots arrive.
use vstd::prelude::*;

use crate::binance::types::DepthUpdate;
use crate::error::OrderBookError;
use crate::orderbook::book::{snapshot_outcome, update_outcome, BookModel, OrderBook};
use crate::orderbook::synchronizer::{
    reconcile_outcome, ProcessResult, SyncModel, SyncState, Synchronizer,
};
use crate::replay::engine::{apply_updates, ready_outcome, resynced};

verus! {

/// What a live depth event did.
#[derive(Debug, Clone)]
pub enum DepthAction {
    /// Queued for reconciliation.
    Buffered,
    /// Applied to the book.
    Applied,
    /// Accepted by the synchronizer but refused by the book.
    ApplyFailed(OrderBookError),
    /// `pu` continuity broke: a resync was started and a new snapshot is
    /// needed.
    ResyncNeeded,
    /// Older than the book.
    Stale,
    /// Not handled in the current state.
    Ignored,
}

/// What applying a REST snapshot did.
#[derive(Debug, Clone)]
pub enum SnapshotAction {
    /// The snapshot itself did not apply.
    Failed(OrderBookError),
    /// No buffered event bridges the snapshot: a resync was started.
    NoBridge,
    /// The book is synchronized; `applied` reconciled events were applied,
    /// and `error` is the first one the book refused, if any.
    Reconciled { applied: usize, error: Option<OrderBookError> },
}

/// Apply every depth update in order, whatever the book answers.
pub open spec fn apply_all_updates(b: BookModel, evs: Seq<DepthUpdate>) -> BookModel
    decreases evs.len(),
{
    if evs.len() == 0 {
        b
    } else {
        let e = evs.last();
        update_outcome(apply_all_updates(b, evs.drop_last()), e.bids@, e.asks@, e.final_update_id).0
    }
}

/// Abstract state of a [`LiveBook`].
pub struct LiveModel {
    pub sync: SyncModel,
    pub book: BookModel,
}

/// Every synchronizer counter can take the next event or reconciliation.
pub open spec fn live_room(s: SyncModel) -> bool {
    let n = s.buffer.len();
    &&& s.events_received + 2 < u64::MAX
    &&& s.events_applied + n + 1 <= u64::MAX
    &&& s.events_ignored + n + 1 <= u64::MAX
    &&& s.sequence_errors < u64::MAX
    &&& s.resync_count < u64::MAX
    &&& s.reconnect_count < u64::MAX
}

/// The synchronizer and the order book of one symbol.
pub struct LiveBook {
    sync: Synchronizer,
    book: OrderBook,
}

impl View for LiveBook {
    type V = LiveModel;

    closed spec fn view(&self) -> LiveModel {
        LiveModel { sync: self.sync@, book: self.book@ }
    }
}

impl LiveBook {
    /// A disconnected synchronizer and an empty book.
    pub fn new() -> (r: Self)
        ensures
            r@.sync.state == SyncState::Disconnected,
            r@.sync.buffer.len() == 0,
            r@.sync.events_received == 0 && r@.sync.events_applied == 0,
            r@.sync.events_ignored == 0 && r@.sync.sequence_errors == 0,
            r@.sync.resync_count == 0 && r@.sync.reconnect_count == 0,
            r@.book == (BookModel {
                bids: Map::empty(),
                asks: Map::empty(),
                last_update_id: 0,
                initialized: false,
            }),
    {
        LiveBook { sync: Synchronizer::new(), book: OrderBook::new() }
    }

    pub fn sync(&self) -> (r: &Synchronizer)
        ensures
            r@ == self@.sync,
    {
        &self.sync
    }

    pub fn book(&self) -> (r: &OrderBook)
        ensures
            r@ == self@.book,
    {
        &self.book
    }

    /// Whether the synchronizer's counters can take the next step.
    pub fn has_room(&self) -> (r: bool)
        ensures
            r == live_room(self@.sync),
    {
        let n = self.sync.buffer_size() as u128;
        let max = u64::MAX as u128;
        (self.sync.events_received() as u128) + 2 < max && (self.sync.events_applied() as u128) + n
            + 1 <= max && (self.sync.events_ignored() as u128) + n + 1 <= max
            && self.sync.sequence_errors() < u64::MAX && self.sync.resync_count() < u64::MAX
            && self.sync.reconnect_count() < u64::MAX
    }

    /// The depth stream is connecting.
    pub fn on_connecting(&mut self)
        ensures
            final(self)@ == (LiveModel {
                sync: SyncModel { state: SyncState::Connecting, ..old(self)@.sync },
                ..old(self)@
            }),
    {
        self.sync.on_connecting();
    }

    /// The depth stream connected: start buffering.
    pub fn on_connected(&mut self)
        ensures
            final(self)@ == (LiveModel {
                sync: SyncModel {
                    state: SyncState::Buffering,
                    buffer: Seq::empty(),
                    last_applied_u: None,
                    events_received: 0,
                    events_applied: 0,
                    events_ignored: 0,
                    sequence_errors: 0,
                    ..old(self)@.sync
                },
                ..old(self)@
            }),
    {
        self.sync.on_connected();
    }

    /// The depth stream dropped: reconnecting, and the book needs a new
    /// snapshot.
    pub fn on_disconnected(&mut self)
        requires
            old(self)@.sync.reconnect_count < u64::MAX,
        ensures
            final(self)@ == (LiveModel {
                sync: SyncModel {
                    state: SyncState::Reconnecting,
                    reconnect_count: (old(self)@.sync.reconnect_count + 1) as u64,
                    ..old(self)@.sync
                },
                book: BookModel { initialized: false, ..old(self)@.book },
            }),
    {
        self.sync.on_reconnecting();
        self.book.set_initialized(false);
    }

    /// A snapshot could not be fetched: resynchronize.
    pub fn on_snapshot_unavailable(&mut self)
        requires
            old(self)@.sync.resync_count < u64::MAX,
        ensures
            final(self)@ == (LiveModel { sync: resynced(old(self)@.sync), ..old(self)@ }),
    {
        self.sync.trigger_resync();
    }

    /// Stop synchronizing.
    pub fn shutdown(&mut self)
        ensures
            final(self)@ == (LiveModel {
                sync: SyncModel { state: SyncState::Stopping, ..old(self)@.sync },
                ..old(self)@
            }),
    {
        self.sync.shutdown();
    }

    /// Handle a live depth event.
    ///
    /// While buffering it is queued; once ready it must continue the `pu`
    /// chain: a continuing event is applied to the book, a stale one is
    /// dropped, and a broken chain starts a resync. In the other states it
    /// is not handled.
    pub fn on_depth(&mut self, update: DepthUpdate) -> (r: DepthAction)
        requires
            live_room(old(self)@.sync),
        ensures
            ({
                let o = old(self)@;
                let f = final(self)@;
                match o.sync.state {
                    SyncState::Buffering => {
                        &&& r == DepthAction::Buffered
                        &&& f.book == o.book
                        &&& f.sync == SyncModel {
                            buffer: o.sync.buffer.push(update),
                            events_received: (o.sync.events_received + 1) as u64,
                            ..o.sync
                        }
                    },
                    SyncState::Ready => {
                        let live = ready_outcome(o.sync, update);
                        match live.1 {
                            ProcessResult::Apply => {
                                let upd = update_outcome(
                                    o.book,
                                    update.bids@,
                                    update.asks@,
                                    update.final_update_id,
                                );
                                &&& f == LiveModel { sync: live.0, book: upd.0 }
                                &&& r == match upd.1 {
                                    Ok(_) => DepthAction::Applied,
                                    Err(e) => DepthAction::ApplyFailed(e),
                                }
                            },
                            ProcessResult::PuMismatch => {
                                &&& r == DepthAction::ResyncNeeded
                                &&& f == LiveModel { sync: resynced(live.0), book: o.book }
                            },
                            _ => {
                                &&& r == DepthAction::Stale
                                &&& f == LiveModel { sync: live.0, book: o.book }
                            },
                        }
                    },
                    _ => {
                        &&& r == DepthAction::Ignored
                        &&& f == o
                    },
                }
            }),
    {
        match self.sync.state() {
            SyncState::Buffering => {
                self.sync.buffer_event(update);
                DepthAction::Buffered
            },
            SyncState::Ready => match self.sync.process_live_event(&update) {
                ProcessResult::Apply => {
                    match self.book.apply_depth_update(
                        &update.bids,
                        &update.asks,
                        update.final_update_id,
                    ) {
                        Ok(()) => DepthAction::Applied,
                        Err(e) => DepthAction::ApplyFailed(e),
                    }
                },
                ProcessResult::PuMismatch => {
                    self.sync.trigger_resync();
                    DepthAction::ResyncNeeded
                },
                _ => DepthAction::Stale,
            },
            _ => DepthAction::Ignored,
        }
    }

    fn apply_until_error(&mut self, events: &Vec<DepthUpdate>) -> (r: (usize, Option<
        OrderBookError,
    >))
        ensures
            ({
                let out = apply_updates(old(self)@.book, events@);
                &&& final(self)@ == LiveModel { book: out.0, ..old(self)@ }
                &&& r.0 == out.1
                &&& r.1 == out.2
            }),
    {
        let ghost o = self@;
        let mut i: usize = 0;
        let mut error: Option<OrderBookError> = None;
        while i < events.len() && error.is_none()
            invariant
                0 <= i <= events@.len(),
                error is None ==> {
                    &&& apply_updates(o.book, events@.take(i as int)).2 is None
                    &&& apply_updates(o.book, events@.take(i as int)).1 == i
                    &&& self@ == LiveModel {
                        book: apply_updates(o.book, events@.take(i as int)).0,
                        ..o
                    }
                },
                error matches Some(e) ==> {
                    let out = apply_updates(o.book, events@);
                    &&& out.2 == Some(e)
                    &&& out.1 == i - 1
                    &&& self@ == LiveModel { book: out.0, ..o }
                },
            decreases events@.len() - i,
        {
            let e = &events[i];
            proof {
                assert(events@.take(i + 1).drop_last() =~= events@.take(i as int));
                assert(events@.take(i + 1).last() == events@[i as int]);
            }
            match self.book.apply_depth_update(&e.bids, &e.asks, e.final_update_id) {
                Err(err) => {
                    proof {
                        crate::replay::engine::lemma_apply_updates_stops(o.book, events@, i + 1);
                    }
                    error = Some(err);
                },
                Ok(()) => {},
            }
            i = i + 1;
        }
        proof {
            if error is None {
                assert(events@.take(events@.len() as int) =~= events@);
            }
        }
        match error {
            Some(e) => (i - 1, Some(e)),
            None => (i, None),
        }
    }

    fn apply_all(&mut self, events: &Vec<DepthUpdate>)
        ensures
            final(self)@ == (LiveModel { book: apply_all_updates(old(self)@.book, events@), ..old(self)@ }),
    {
        let ghost o = self@;
        let mut i: usize = 0;
        while i < events.len()
            invariant
                0 <= i <= events@.len(),
                self@ == (LiveModel { book: apply_all_updates(o.book, events@.take(i as int)), ..o }),
            decreases events@.len() - i,
        {
            let e = &events[i];
            proof {
                assert(events@.take(i + 1).drop_last() =~= events@.take(i as int));
                assert(events@.take(i + 1).last() == events@[i as int]);
            }
            let _ = self.book.apply_depth_update(&e.bids, &e.asks, e.final_update_id);
            i = i + 1;
        }
        proof {
            assert(events@.take(events@.len() as int) =~= events@);
        }
    }

    /// Apply a REST snapshot and reconcile the buffered events with it.
    ///
    /// When the snapshot applies and an event bridges it, the reconciled
    /// events are applied in order: up to the first one the book refuses
    /// when `stop_at_error`, all of them otherwise. When none bridges it, a
    /// resync starts.
    pub fn on_snapshot(
        &mut self,
        bids: &Vec<(String, String)>,
        asks: &Vec<(String, String)>,
        last_update_id: u64,
        stop_at_error: bool,
    ) -> (r: SnapshotAction)
        requires
            live_room(old(self)@.sync),
        ensures
            ({
                let o = old(self)@;
                let f = final(self)@;
                let s1 = SyncModel { state: SyncState::SnapshotLoading, ..o.sync };
                let snap = snapshot_outcome(o.book, bids@, asks@, last_update_id);
                match snap.1 {
                    Err(e) => {
                        &&& r == SnapshotAction::Failed(e)
                        &&& f == LiveModel { sync: s1, book: snap.0 }
                    },
                    Ok(_) => {
                        let rec = reconcile_outcome(s1, last_update_id);
                        match rec.1 {
                            None => {
                                &&& r == SnapshotAction::NoBridge
                                &&& f == LiveModel { sync: resynced(rec.0), book: snap.0 }
                            },
                            Some(v) => {
                                &&& f.sync == rec.0
                                &&& if stop_at_error {
                                    let out = apply_updates(snap.0, v);
                                    &&& f.book == out.0
                                    &&& r == SnapshotAction::Reconciled {
                                        applied: out.1 as usize,
                                        error: out.2,
                                    }
                                } else {
                                    &&& f.book == apply_all_updates(snap.0, v)
                                    &&& r matches SnapshotAction::Reconciled { applied, error }
                                        && applied == v.len() && error is None
                                }
                            },
                        }
                    },
                }
            }),
    {
        self.sync.on_snapshot_loading();
        if let Err(e) = self.book.apply_snapshot(bids, asks, last_update_id) {
            return SnapshotAction::Failed(e);
        }
        match self.sync.reconcile(last_update_id) {
            Ok(events) => {
                if stop_at_error {
                    let (applied, error) = self.apply_until_error(&events);
                    SnapshotAction::Reconciled { applied, error }
                } else {
                    self.apply_all(&events);
                    SnapshotAction::Reconciled { applied: events.len(), error: None }
                }
            },
            Err(_) => {
                self.sync.trigger_resync();
                SnapshotAction::NoBridge
            },
        }
    }
}

} // verus!
