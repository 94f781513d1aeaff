//! The web replay's handling of one recorded event.
//!
//! A snapshot is loaded and reconciled with the buffered depth events; a
//! failed snapshot is skipped, a reconciliation without a bridging event
//! triggers a resync, and the reconciled events are applied whatever each
//! application gives. A depth event is checked for continuity once the book
//! is live and applied when it continues the chain (a sequence break is
//! counted, without a resync: the recorded stream is replayed as it was
//! stored), and buffered before that. A trade goes through the duplicate
//! and ordering checks. The action says what the analytics are fed.
use vstd::prelude::*;

use crate::binance::types::DepthUpdate;
use crate::orderbook::book::{snapshot_outcome, update_outcome, BookModel, OrderBook};
use crate::orderbook::synchronizer::{
    reconcile_outcome, ProcessResult, SyncModel, SyncState, Synchronizer,
};
use crate::replay::engine::{ready_outcome, resynced};
use crate::replay::reader::ReplayEvent;
use crate::trades::trade::TradeEvent;
use crate::trades::processor::{
    classify_trade, model_wf, trade_after, TradeModel, TradeProcessResult, TradeProcessor,
};

verus! {

/// What the analytics are fed after one event.
#[derive(Debug, Clone, Copy, PartialEq, Eq, Structural)]
pub enum FeedAction {
    /// Nothing.
    Skipped,
    /// The loaded book, as a snapshot.
    SnapshotLoaded,
    /// The depth update that was applied.
    DepthApplied,
    /// The accepted trade.
    TradeAccepted,
}

/// The state of a replay feed.
pub struct FeedModel {
    pub sync: SyncModel,
    pub book: BookModel,
    pub trades: TradeModel,
}

/// The book after applying the updates `evs` in order, each whatever the
/// previous one gave.
pub open spec fn apply_all(b: BookModel, evs: Seq<DepthUpdate>) -> BookModel
    decreases evs.len(),
{
    if evs.len() == 0 {
        b
    } else {
        let e = evs.last();
        update_outcome(apply_all(b, evs.drop_last()), e.bids@, e.asks@, e.final_update_id).0
    }
}

/// Every counter can take the next event without overflowing.
pub open spec fn feed_room(m: FeedModel) -> bool {
    let n = m.sync.buffer.len();
    &&& m.sync.events_received < u64::MAX
    &&& m.sync.events_applied + n + 1 <= u64::MAX
    &&& m.sync.events_ignored + n + 1 <= u64::MAX
    &&& m.sync.sequence_errors < u64::MAX
    &&& m.sync.resync_count < u64::MAX
    &&& m.trades.received < u64::MAX
}

/// A snapshot: loaded, then reconciled (a failed load is skipped).
pub open spec fn snapshot_step(
    m: FeedModel,
    update_id: u64,
    bids: Seq<(String, String)>,
    asks: Seq<(String, String)>,
) -> (FeedModel, FeedAction) {
    let s1 = SyncModel { state: SyncState::SnapshotLoading, ..m.sync };
    let snap = snapshot_outcome(m.book, bids, asks, update_id);
    if snap.1 is Err {
        (FeedModel { sync: s1, book: snap.0, ..m }, FeedAction::Skipped)
    } else {
        let rec = reconcile_outcome(s1, update_id);
        match rec.1 {
            None => (
                FeedModel { sync: resynced(rec.0), book: snap.0, ..m },
                FeedAction::SnapshotLoaded,
            ),
            Some(v) => (
                FeedModel { sync: rec.0, book: apply_all(snap.0, v), ..m },
                FeedAction::SnapshotLoaded,
            ),
        }
    }
}

/// A depth event once the book is live: applied when it continues the
/// chain. (Before that it is buffered; see `feed`.)
pub open spec fn depth_step(m: FeedModel, update: DepthUpdate) -> (FeedModel, FeedAction) {
    if m.sync.state == SyncState::Ready {
        let live = ready_outcome(m.sync, update);
        if live.1 == ProcessResult::Apply {
            (
                FeedModel {
                    sync: live.0,
                    book: update_outcome(m.book, update.bids@, update.asks@, update.final_update_id).0,
                    ..m
                },
                FeedAction::DepthApplied,
            )
        } else {
            (FeedModel { sync: live.0, ..m }, FeedAction::Skipped)
        }
    } else {
        (m, FeedAction::Skipped)
    }
}

/// A trade: checked for duplicates and order.
pub open spec fn trade_step(m: FeedModel, t: TradeEvent) -> (FeedModel, FeedAction) {
    (
        FeedModel { trades: trade_after(m.trades, t), ..m },
        if classify_trade(m.trades, t.trade_id) == TradeProcessResult::Processed {
            FeedAction::TradeAccepted
        } else {
            FeedAction::Skipped
        },
    )
}

/// The state after one event and what the analytics are fed. (A depth
/// event while buffering also queues a copy of itself; see `feed`.)
pub open spec fn feed_step(m: FeedModel, ev: ReplayEvent) -> (FeedModel, FeedAction) {
    match ev {
        ReplayEvent::Snapshot { update_id, bids, asks, .. } => snapshot_step(m, update_id, bids@, asks@),
        ReplayEvent::Depth { update, .. } => depth_step(m, update),
        ReplayEvent::Trade { event: t, .. } => trade_step(m, t),
    }
}

/// The synchronizer, order book and trade processor of a web replay.
pub struct ReplayFeed {
    sync: Synchronizer,
    book: OrderBook,
    trades: TradeProcessor,
}

impl View for ReplayFeed {
    type V = FeedModel;

    closed spec fn view(&self) -> FeedModel {
        FeedModel { sync: self.sync@, book: self.book@, trades: self.trades@ }
    }
}

impl ReplayFeed {
    /// The trade processor's invariants hold.
    pub closed spec fn wf(&self) -> bool {
        model_wf(self.trades@)
    }

    /// A feed whose synchronizer has just connected (buffering), with an
    /// empty book and a fresh trade processor.
    pub fn new() -> (r: Self)
        ensures
            r.wf(),
            r@.sync.state == SyncState::Buffering,
            r@.sync.buffer.len() == 0,
            r@.book == (BookModel {
                bids: Map::empty(),
                asks: Map::empty(),
                last_update_id: 0,
                initialized: false,
            }),
            r@.trades == crate::trades::processor::initial_trade_model(),
    {
        let mut sync = Synchronizer::new();
        sync.on_connected();
        ReplayFeed { sync, book: OrderBook::new(), trades: TradeProcessor::new() }
    }

    /// The order book.
    pub fn book(&self) -> (r: &OrderBook)
        ensures
            r@ == self@.book,
    {
        &self.book
    }

    /// Whether every counter can take the next event.
    pub fn has_room(&self) -> (r: bool)
        ensures
            r == feed_room(self@),
    {
        let n = self.sync.buffer_size() as u128;
        (self.sync.events_received() as u128) < u64::MAX as u128 && (self.sync.events_applied()
            as u128) + n + 1 <= u64::MAX as u128 && (self.sync.events_ignored() as u128) + n + 1
            <= u64::MAX as u128 && self.sync.sequence_errors() < u64::MAX
            && self.sync.resync_count() < u64::MAX && self.trades.trade_events_received() < u64::MAX
    }

    fn apply_each(&mut self, events: &Vec<DepthUpdate>)
        ensures
            final(self)@ == (FeedModel { book: apply_all(old(self)@.book, events@), ..old(self)@ }),
            final(self).wf() == old(self).wf(),
    {
        let ghost b0 = self.book@;
        let mut i: usize = 0;
        while i < events.len()
            invariant
                0 <= i <= events@.len(),
                self.book@ == apply_all(b0, events@.take(i as int)),
                self.sync@ == old(self).sync@,
                self.trades@ == old(self).trades@,
            decreases events@.len() - i,
        {
            proof {
                assert(events@.take(i + 1).drop_last() =~= events@.take(i as int));
                assert(events@.take(i + 1).last() == events@[i as int]);
            }
            let e = &events[i];
            let _ = self.book.apply_depth_update(e.bids.as_slice(), e.asks.as_slice(), e.final_update_id);
            i = i + 1;
        }
        proof {
            assert(events@.take(events@.len() as int) =~= events@);
        }
    }

    #[verifier::rlimit(60)]
    fn feed_snapshot(
        &mut self,
        update_id: u64,
        bids: &Vec<(String, String)>,
        asks: &Vec<(String, String)>,
    ) -> (r: FeedAction)
        requires
            old(self).wf(),
            feed_room(old(self)@),
        ensures
            final(self).wf(),
            (final(self)@, r) == snapshot_step(old(self)@, update_id, bids@, asks@),
    {
        self.sync.on_snapshot_loading();
        if self.book.apply_snapshot(bids.as_slice(), asks.as_slice(), update_id).is_err() {
            return FeedAction::Skipped;
        }
        match self.sync.reconcile(update_id) {
            Ok(events) => {
                self.apply_each(&events);
            },
            Err(_) => {
                self.sync.trigger_resync();
            },
        }
        FeedAction::SnapshotLoaded
    }

    fn feed_depth(&mut self, update: &DepthUpdate) -> (r: FeedAction)
        requires
            old(self).wf(),
            feed_room(old(self)@),
        ensures
            final(self).wf(),
            old(self)@.sync.state != SyncState::Buffering ==> (final(self)@, r) == depth_step(old(self)@, *update),
            old(self)@.sync.state == SyncState::Buffering ==> r == FeedAction::Skipped && exists|x: DepthUpdate|
                x.same_as(update) && final(self)@ == (FeedModel {
                    sync: SyncModel {
                        buffer: old(self)@.sync.buffer.push(x),
                        events_received: (old(self)@.sync.events_received + 1) as u64,
                        ..old(self)@.sync
                    },
                    ..old(self)@
                }),
    {
        if self.sync.state() == SyncState::Ready {
            match self.sync.process_live_event(update) {
                ProcessResult::Apply => {
                    let _ = self.book.apply_depth_update(
                        update.bids.as_slice(),
                        update.asks.as_slice(),
                        update.final_update_id,
                    );
                    FeedAction::DepthApplied
                },
                _ => FeedAction::Skipped,
            }
        } else {
            let x = update.copy_update();
            self.sync.buffer_event(x);
            FeedAction::Skipped
        }
    }

    /// Handle one recorded event: `r` says what the analytics are fed.
    pub fn feed(&mut self, ev: &ReplayEvent) -> (r: FeedAction)
        requires
            old(self).wf(),
            feed_room(old(self)@),
        ensures
            final(self).wf(),
            match *ev {
                ReplayEvent::Depth { update, .. } => {
                    &&& old(self)@.sync.state != SyncState::Buffering ==> (final(self)@, r)
                        == feed_step(old(self)@, *ev)
                    &&& old(self)@.sync.state == SyncState::Buffering ==> r == FeedAction::Skipped
                        && exists|x: DepthUpdate|
                        x.same_as(&update) && final(self)@ == (FeedModel {
                            sync: SyncModel {
                                buffer: old(self)@.sync.buffer.push(x),
                                events_received: (old(self)@.sync.events_received + 1) as u64,
                                ..old(self)@.sync
                            },
                            ..old(self)@
                        })
                },
                _ => (final(self)@, r) == feed_step(old(self)@, *ev),
            },
    {
        match ev {
            ReplayEvent::Snapshot { update_id, bids, asks, .. } => self.feed_snapshot(*update_id, bids, asks),
            ReplayEvent::Depth { update, .. } => self.feed_depth(update),
            ReplayEvent::Trade { event: t, .. } => match self.trades.process(t.copy_event()) {
                TradeProcessResult::Processed => FeedAction::TradeAccepted,
                _ => FeedAction::Skipped,
            },
        }
    }
}

} // verus!
