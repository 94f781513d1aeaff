//! Synchronization state machine for the local order book.
//!
//! ```text
//! Disconnected → Connecting → Buffering → SnapshotLoading → Synchronizing → Ready
//! Ready → (pu mismatch) → ResyncRequired → Buffering → ... → Ready
//! ```
//!
//! Binance Futures synchronization:
//! 1. Open the WebSocket and buffer depth events.
//! 2. Fetch the REST snapshot (`lastUpdateId`).
//! 3. Drop buffered events where `u < lastUpdateId`.
//! 4. The first applied event satisfies `U <= lastUpdateId && u >= lastUpdateId`.
//! 5. Each later event's `pu` equals the previous event's `u`.
use std::collections::VecDeque;
use vstd::prelude::*;

use crate::binance::types::DepthUpdate;

verus! {

/// Synchronization state.
#[derive(Debug, Clone, Copy, PartialEq, Eq, Structural)]
pub enum SyncState {
    /// Not connected to the WebSocket.
    Disconnected,
    /// WebSocket connection in progress.
    Connecting,
    /// Receiving and buffering depth events, waiting for a snapshot.
    Buffering,
    /// REST snapshot request in flight.
    SnapshotLoading,
    /// Snapshot received; reconciling buffered events.
    Synchronizing,
    /// Book is fully synchronized and live.
    Ready,
    /// A sequence gap was detected; resync needed.
    ResyncRequired,
    /// WebSocket reconnection in progress.
    Reconnecting,
    /// Engine is shutting down.
    Stopping,
}

/// The name of each state, as the diagnostics print it.
pub open spec fn state_name(s: SyncState) -> Seq<char> {
    match s {
        SyncState::Disconnected => "Disconnected"@,
        SyncState::Connecting => "Connecting"@,
        SyncState::Buffering => "Buffering"@,
        SyncState::SnapshotLoading => "SnapshotLoading"@,
        SyncState::Synchronizing => "Synchronizing"@,
        SyncState::Ready => "Ready"@,
        SyncState::ResyncRequired => "ResyncRequired"@,
        SyncState::Reconnecting => "Reconnecting"@,
        SyncState::Stopping => "Stopping"@,
    }
}

impl SyncState {
    /// The state's name.
    pub fn name(self) -> (r: &'static str)
        ensures
            r@ == state_name(self),
    {
        match self {
            SyncState::Disconnected => "Disconnected",
            SyncState::Connecting => "Connecting",
            SyncState::Buffering => "Buffering",
            SyncState::SnapshotLoading => "SnapshotLoading",
            SyncState::Synchronizing => "Synchronizing",
            SyncState::Ready => "Ready",
            SyncState::ResyncRequired => "ResyncRequired",
            SyncState::Reconnecting => "Reconnecting",
            SyncState::Stopping => "Stopping",
        }
    }
}

/// Result of processing a live depth event.
#[derive(Debug, Clone, Copy, PartialEq, Eq, Structural)]
pub enum ProcessResult {
    /// Event should be applied to the book.
    Apply,
    /// Event was buffered (not in Ready state).
    Buffered,
    /// Event was stale and ignored.
    Stale,
    /// `pu` continuity was broken.
    PuMismatch,
    /// Event was ignored for other reasons.
    Ignored,
}

/// Errors during synchronization.
#[derive(Debug, Clone, Copy, PartialEq, Eq, Structural)]
pub enum SyncError {
    /// No buffered event bridges the snapshot.
    NoBridgingEvent,
    /// A sequence gap was detected.
    SequenceGap,
    /// `pu` continuity failure.
    PuMismatch { expected: u64, got: u64 },
}

/// Abstract state of a [`Synchronizer`].
pub struct SyncModel {
    pub state: SyncState,
    /// Buffered depth events, oldest first.
    pub buffer: Seq<DepthUpdate>,
    pub snapshot_last_update_id: u64,
    /// The `u` of the last applied event.
    pub last_applied_u: Option<u64>,
    pub events_received: u64,
    pub events_applied: u64,
    pub events_ignored: u64,
    pub sequence_errors: u64,
    pub resync_count: u64,
    pub reconnect_count: u64,
}

/// An event bridges snapshot `l` when `U <= l <= u`.
pub open spec fn is_bridge(e: DepthUpdate, l: u64) -> bool {
    e.first_update_id <= l && e.final_update_id >= l
}

/// First index `>= i` whose event has `u >= l` (or `b.len()`).
pub open spec fn stale_end(b: Seq<DepthUpdate>, l: u64, i: int) -> int
    decreases b.len() - i,
{
    if i >= b.len() || b[i].final_update_id >= l {
        i
    } else {
        stale_end(b, l, i + 1)
    }
}

/// First index `>= i` whose event bridges `l`.
pub open spec fn bridge_from(b: Seq<DepthUpdate>, l: u64, i: int) -> Option<int>
    decreases b.len() - i,
{
    if i >= b.len() {
        None
    } else if is_bridge(b[i], l) {
        Some(i)
    } else {
        bridge_from(b, l, i + 1)
    }
}

/// First index `t' >= t` where `pu` does not continue the previous event's `u`
/// (or `b.len()`).
pub open spec fn chain_end(b: Seq<DepthUpdate>, t: int) -> int
    decreases b.len() - t,
{
    if t >= b.len() {
        b.len() as int
    } else if b[t].previous_final_update_id != b[t - 1].final_update_id {
        t
    } else {
        chain_end(b, t + 1)
    }
}

/// The state and events that reconciling `o` with snapshot id `l` gives:
/// `None` when no buffered event bridges the snapshot.
pub open spec fn reconcile_outcome(o: SyncModel, l: u64) -> (SyncModel, Option<Seq<DepthUpdate>>) {
    let b = o.buffer;
    let k = stale_end(b, l, 0);
    match bridge_from(b, l, k) {
        None => (
            SyncModel {
                buffer: b.skip(k),
                snapshot_last_update_id: l,
                events_ignored: (o.events_ignored + k) as u64,
                ..o
            },
            None,
        ),
        Some(j) => {
            let e = chain_end(b, j + 1);
            (
                SyncModel {
                    state: SyncState::Ready,
                    buffer: Seq::empty(),
                    snapshot_last_update_id: l,
                    last_applied_u: Some(b[e - 1].final_update_id),
                    events_applied: (o.events_applied + (e - j)) as u64,
                    events_ignored: (o.events_ignored + k) as u64,
                    ..o
                },
                Some(b.subrange(j, e)),
            )
        },
    }
}

/// Keeps the local order book in sync with the depth stream.
pub struct Synchronizer {
    state: SyncState,
    buffer: VecDeque<DepthUpdate>,
    snapshot_last_update_id: u64,
    last_applied_u: Option<u64>,
    events_received: u64,
    events_applied: u64,
    events_ignored: u64,
    sequence_errors: u64,
    resync_count: u64,
    reconnect_count: u64,
}

impl View for Synchronizer {
    type V = SyncModel;

    closed spec fn view(&self) -> SyncModel {
        SyncModel {
            state: self.state,
            buffer: self.buffer@,
            snapshot_last_update_id: self.snapshot_last_update_id,
            last_applied_u: self.last_applied_u,
            events_received: self.events_received,
            events_applied: self.events_applied,
            events_ignored: self.events_ignored,
            sequence_errors: self.sequence_errors,
            resync_count: self.resync_count,
            reconnect_count: self.reconnect_count,
        }
    }
}

proof fn lemma_stale_end_bound(b: Seq<DepthUpdate>, l: u64, i: int)
    requires
        0 <= i <= b.len(),
    ensures
        i <= stale_end(b, l, i) <= b.len(),
    decreases b.len() - i,
{
    if i < b.len() && b[i].final_update_id < l {
        lemma_stale_end_bound(b, l, i + 1);
    }
}

proof fn lemma_bridge_bound(b: Seq<DepthUpdate>, l: u64, i: int)
    requires
        0 <= i,
    ensures
        bridge_from(b, l, i) matches Some(j) ==> i <= j < b.len() && is_bridge(b[j], l),
    decreases b.len() - i,
{
    if i < b.len() && !is_bridge(b[i], l) {
        lemma_bridge_bound(b, l, i + 1);
    }
}

proof fn lemma_chain_end_bound(b: Seq<DepthUpdate>, t: int)
    requires
        1 <= t,
    ensures
        t <= b.len() ==> t <= chain_end(b, t) <= b.len(),
        t > b.len() ==> chain_end(b, t) == b.len(),
    decreases b.len() - t,
{
    if t < b.len() && b[t].previous_final_update_id == b[t - 1].final_update_id {
        lemma_chain_end_bound(b, t + 1);
    }
}

proof fn lemma_chain_continues(b: Seq<DepthUpdate>, t: int)
    requires
        1 <= t,
    ensures
        forall|i: int|
            t <= i < chain_end(b, t) ==> #[trigger] b[i].previous_final_update_id == b[i
                - 1].final_update_id,
    decreases b.len() - t,
{
    if t < b.len() && b[t].previous_final_update_id == b[t - 1].final_update_id {
        lemma_chain_continues(b, t + 1);
    }
}

proof fn lemma_stale_prefix(b: Seq<DepthUpdate>, l: u64, i: int)
    requires
        0 <= i <= b.len(),
    ensures
        forall|k: int| i <= k < stale_end(b, l, i) ==> #[trigger] b[k].final_update_id < l,
        stale_end(b, l, i) < b.len() ==> b[stale_end(b, l, i)].final_update_id >= l,
    decreases b.len() - i,
{
    if i < b.len() && b[i].final_update_id < l {
        lemma_stale_prefix(b, l, i + 1);
    }
}

/// The reconciled range lies inside the buffer.
pub(crate) proof fn lemma_reconcile_bounds(b: Seq<DepthUpdate>, l: u64)
    ensures
        bridge_from(b, l, stale_end(b, l, 0)) matches Some(j) ==> 0 <= j < chain_end(b, j + 1)
            <= b.len(),
{
    lemma_stale_end_bound(b, l, 0);
    lemma_bridge_bound(b, l, stale_end(b, l, 0));
    if let Some(j) = bridge_from(b, l, stale_end(b, l, 0)) {
        lemma_chain_end_bound(b, j + 1);
    }
}

/// What reconciliation hands back from buffer `b` and snapshot id `l`
/// follows the synchronization rules: every event dropped in front is older
/// than the snapshot (`u < l`), the first event returned bridges the snapshot
/// (`U <= l <= u`), and each later event's `pu` is the previous event's
/// `u`.
pub proof fn lemma_reconcile_chain(b: Seq<DepthUpdate>, l: u64)
    ensures
        forall|k: int| 0 <= k < stale_end(b, l, 0) ==> #[trigger] b[k].final_update_id < l,
        bridge_from(b, l, stale_end(b, l, 0)) matches Some(j) ==> {
            let v = b.subrange(j, chain_end(b, j + 1));
            &&& v.len() >= 1
            &&& is_bridge(v[0], l)
            &&& forall|i: int|
                1 <= i < v.len() ==> #[trigger] v[i].previous_final_update_id == v[i
                    - 1].final_update_id
        },
{
    lemma_stale_end_bound(b, l, 0);
    lemma_stale_prefix(b, l, 0);
    let k = stale_end(b, l, 0);
    lemma_bridge_bound(b, l, k);
    if let Some(j) = bridge_from(b, l, k) {
        lemma_chain_end_bound(b, j + 1);
        lemma_chain_continues(b, j + 1);
        let e = chain_end(b, j + 1);
        let v = b.subrange(j, e);
        assert forall|i: int| 1 <= i < v.len() implies #[trigger] v[i].previous_final_update_id
            == v[i - 1].final_update_id by {
            assert(v[i] == b[j + i]);
            assert(v[i - 1] == b[j + i - 1]);
        }
    }
}

impl Synchronizer {
    pub fn new() -> (r: Self)
        ensures
            r@ == (SyncModel {
                state: SyncState::Disconnected,
                buffer: Seq::empty(),
                snapshot_last_update_id: 0,
                last_applied_u: None,
                events_received: 0,
                events_applied: 0,
                events_ignored: 0,
                sequence_errors: 0,
                resync_count: 0,
                reconnect_count: 0,
            }),
    {
        Synchronizer {
            state: SyncState::Disconnected,
            buffer: VecDeque::new(),
            snapshot_last_update_id: 0,
            last_applied_u: None,
            events_received: 0,
            events_applied: 0,
            events_ignored: 0,
            sequence_errors: 0,
            resync_count: 0,
            reconnect_count: 0,
        }
    }

    /// The current synchronization state.
    pub fn state(&self) -> (r: SyncState)
        ensures
            r == self@.state,
    {
        self.state
    }

    /// Transition to `Connecting`.
    pub fn on_connecting(&mut self)
        ensures
            final(self)@ == (SyncModel { state: SyncState::Connecting, ..old(self)@ }),
    {
        self.state = SyncState::Connecting;
    }

    /// Transition to `Buffering` after the WebSocket connects; clears the
    /// buffer, the applied position and the per-connection counters.
    pub fn on_connected(&mut self)
        ensures
            final(self)@ == (SyncModel {
                state: SyncState::Buffering,
                buffer: Seq::empty(),
                last_applied_u: None,
                events_received: 0,
                events_applied: 0,
                events_ignored: 0,
                sequence_errors: 0,
                ..old(self)@
            }),
    {
        self.state = SyncState::Buffering;
        self.buffer.clear();
        self.last_applied_u = None;
        self.events_received = 0;
        self.events_applied = 0;
        self.events_ignored = 0;
        self.sequence_errors = 0;
    }

    /// Transition to `Reconnecting`, counting the reconnection.
    pub fn on_reconnecting(&mut self)
        requires
            old(self)@.reconnect_count < u64::MAX,
        ensures
            final(self)@ == (SyncModel {
                state: SyncState::Reconnecting,
                reconnect_count: (old(self)@.reconnect_count + 1) as u64,
                ..old(self)@
            }),
    {
        self.state = SyncState::Reconnecting;
        self.reconnect_count = self.reconnect_count + 1;
    }

    /// Transition to `SnapshotLoading`.
    pub fn on_snapshot_loading(&mut self)
        ensures
            final(self)@ == (SyncModel { state: SyncState::SnapshotLoading, ..old(self)@ }),
    {
        self.state = SyncState::SnapshotLoading;
    }

    /// Queue an event for reconciliation; only in `Buffering` state.
    pub fn buffer_event(&mut self, event: DepthUpdate)
        requires
            old(self)@.events_received < u64::MAX,
        ensures
            old(self)@.state == SyncState::Buffering ==> final(self)@ == (SyncModel {
                buffer: old(self)@.buffer.push(event),
                events_received: (old(self)@.events_received + 1) as u64,
                ..old(self)@
            }),
            old(self)@.state != SyncState::Buffering ==> final(self)@ == old(self)@,
    {
        if self.state == SyncState::Buffering {
            self.events_received = self.events_received + 1;
            self.buffer.push_back(event);
        }
    }

    /// Classify a live depth event.
    ///
    /// In `Ready` state the event must continue the chain (`pu` equals the
    /// last applied `u`) and be newer than it; in `Buffering` state a copy is
    /// queued.
    pub fn process_live_event(&mut self, event: &DepthUpdate) -> (r: ProcessResult)
        requires
            old(self)@.events_received < u64::MAX,
            old(self)@.events_applied < u64::MAX,
            old(self)@.events_ignored < u64::MAX,
            old(self)@.sequence_errors < u64::MAX,
        ensures
            ({
                let o = old(self)@;
                let f = final(self)@;
                let rec = (o.events_received + 1) as u64;
                match o.state {
                    SyncState::Ready => match o.last_applied_u {
                        Some(prev) if event.previous_final_update_id != prev => {
                            &&& r == ProcessResult::PuMismatch
                            &&& f == SyncModel {
                                events_received: rec,
                                sequence_errors: (o.sequence_errors + 1) as u64,
                                ..o
                            }
                        },
                        Some(prev) if event.final_update_id <= prev => {
                            &&& r == ProcessResult::Stale
                            &&& f == SyncModel {
                                events_received: rec,
                                events_ignored: (o.events_ignored + 1) as u64,
                                ..o
                            }
                        },
                        _ => {
                            &&& r == ProcessResult::Apply
                            &&& f == SyncModel {
                                events_received: rec,
                                last_applied_u: Some(event.final_update_id),
                                events_applied: (o.events_applied + 1) as u64,
                                ..o
                            }
                        },
                    },
                    SyncState::Buffering => {
                        &&& r == ProcessResult::Buffered
                        &&& f.buffer.len() == o.buffer.len() + 1
                        &&& f.buffer.take(o.buffer.len() as int) == o.buffer
                        &&& f.buffer.last().same_as(event)
                        &&& f == SyncModel {
                            events_received: rec,
                            buffer: f.buffer,
                            ..o
                        }
                    },
                    SyncState::Synchronizing => {
                        &&& r == ProcessResult::Buffered
                        &&& f == SyncModel { events_received: rec, ..o }
                    },
                    _ => {
                        &&& r == ProcessResult::Ignored
                        &&& f == SyncModel {
                            events_received: rec,
                            events_ignored: (o.events_ignored + 1) as u64,
                            ..o
                        }
                    },
                }
            }),
    {
        self.events_received = self.events_received + 1;
        match self.state {
            SyncState::Ready => {
                if let Some(prev_u) = self.last_applied_u {
                    if event.previous_final_update_id != prev_u {
                        self.sequence_errors = self.sequence_errors + 1;
                        return ProcessResult::PuMismatch;
                    }
                }
                if let Some(prev_u) = self.last_applied_u {
                    if event.final_update_id <= prev_u {
                        self.events_ignored = self.events_ignored + 1;
                        return ProcessResult::Stale;
                    }
                }
                self.last_applied_u = Some(event.final_update_id);
                self.events_applied = self.events_applied + 1;
                ProcessResult::Apply
            },
            SyncState::Buffering => {
                let copy = event.copy_update();
                self.buffer.push_back(copy);
                proof {
                    assert(self.buffer@.take(self.buffer@.len() - 1) =~= old(self).buffer@);
                }
                ProcessResult::Buffered
            },
            SyncState::Synchronizing => ProcessResult::Buffered,
            _ => {
                self.events_ignored = self.events_ignored + 1;
                ProcessResult::Ignored
            },
        }
    }

    /// Reconcile the buffer with a REST snapshot whose `lastUpdateId` is
    /// `snapshot_last_update_id`.
    ///
    /// Drops the leading events with `u < lastUpdateId`, finds the first
    /// bridging event (`U <= lastUpdateId <= u`) and returns it with the
    /// events that follow it while the `pu` chain holds; the buffer is then
    /// emptied and the state becomes `Ready`.
    #[verifier::rlimit(40)]
    pub fn reconcile(&mut self, snapshot_last_update_id: u64) -> (r: Result<
        Vec<DepthUpdate>,
        SyncError,
    >)
        requires
            old(self)@.events_ignored + old(self)@.buffer.len() <= u64::MAX,
            old(self)@.events_applied + old(self)@.buffer.len() <= u64::MAX,
        ensures
            final(self)@ == reconcile_outcome(old(self)@, snapshot_last_update_id).0,
            match r {
                Ok(v) => reconcile_outcome(old(self)@, snapshot_last_update_id).1 == Some(v@),
                Err(e) => reconcile_outcome(old(self)@, snapshot_last_update_id).1 is None
                    && e == SyncError::NoBridgingEvent,
            },
            ({
                let o = old(self)@;
                let f = final(self)@;
                let b = o.buffer;
                let l = snapshot_last_update_id;
                let k = stale_end(b, l, 0);
                match bridge_from(b, l, k) {
                    None => {
                        &&& r == Err::<Vec<DepthUpdate>, SyncError>(SyncError::NoBridgingEvent)
                        &&& f == SyncModel {
                            buffer: b.skip(k),
                            snapshot_last_update_id: l,
                            events_ignored: (o.events_ignored + k) as u64,
                            ..o
                        }
                    },
                    Some(j) => {
                        let e = chain_end(b, j + 1);
                        &&& r matches Ok(v) && v@ == b.subrange(j, e)
                        &&& f == SyncModel {
                            state: SyncState::Ready,
                            buffer: Seq::empty(),
                            snapshot_last_update_id: l,
                            last_applied_u: Some(b[e - 1].final_update_id),
                            events_applied: (o.events_applied + (e - j)) as u64,
                            events_ignored: (o.events_ignored + k) as u64,
                            ..o
                        }
                    },
                }
            }),
    {
        let ghost b = self.buffer@;
        let ghost o = self@;
        let l = snapshot_last_update_id;
        self.snapshot_last_update_id = l;
        proof {
            lemma_stale_end_bound(b, l, 0);
        }
        // Step 1: drop events with u < lastUpdateId.
        let ghost mut k: int = 0;
        while self.buffer.len() > 0 && self.buffer[0].final_update_id < l
            invariant
                0 <= k <= b.len(),
                self.buffer@ == b.skip(k),
                stale_end(b, l, 0) == stale_end(b, l, k),
                self.events_ignored == o.events_ignored + k,
                o.events_ignored + b.len() <= u64::MAX,
                self@ == (SyncModel {
                    buffer: self@.buffer,
                    events_ignored: self@.events_ignored,
                    snapshot_last_update_id: l,
                    ..o
                }),
            decreases self.buffer@.len(),
        {
            proof {
                assert(self.buffer@[0] == b[k]);
            }
            self.buffer.pop_front();
            self.events_ignored = self.events_ignored + 1;
            proof {
                assert(self.buffer@ =~= b.skip(k + 1));
                k = k + 1;
            }
        }
        proof {
            if k < b.len() {
                assert(self.buffer@[0] == b[k]);
            }
            assert(stale_end(b, l, k) == k);
        }
        // Step 2: find the first bridging event.
        let n = self.buffer.len();
        let mut idx: usize = 0;
        let mut found = false;
        while idx < n
            invariant
                n == self.buffer@.len(),
                self.buffer@ == b.skip(k),
                0 <= k <= b.len(),
                idx <= n,
                bridge_from(b, l, k) == bridge_from(b, l, k + idx),
                found ==> idx < n && is_bridge(self.buffer@[idx as int], l),
            ensures
                found ==> idx < n && is_bridge(self.buffer@[idx as int], l),
                !found ==> idx == n,
                bridge_from(b, l, k) == bridge_from(b, l, k + idx),
            decreases n - idx,
        {
            if self.buffer[idx].first_update_id <= l && self.buffer[idx].final_update_id >= l {
                found = true;
                break;
            }
            proof {
                assert(self.buffer@[idx as int] == b[k + idx]);
            }
            idx = idx + 1;
        }
        if !found {
            proof {
                assert(bridge_from(b, l, k + idx) is None);
            }
            return Err(SyncError::NoBridgingEvent);
        }
        let ghost j: int = k + idx;
        proof {
            assert(self.buffer@[idx as int] == b[j]);
            assert(bridge_from(b, l, j) == Some(j));
        }
        // Step 3: drop the events before the bridge, then move the chain out.
        let mut dropped: usize = 0;
        while dropped < idx
            invariant
                dropped <= idx,
                idx < n,
                n == b.len() - k,
                0 <= k <= b.len(),
                self.buffer@ == b.skip(k + dropped),
                self.events_ignored == o.events_ignored + k,
                self@ == (SyncModel {
                    buffer: self@.buffer,
                    events_ignored: self@.events_ignored,
                    snapshot_last_update_id: l,
                    ..o
                }),
            decreases idx - dropped,
        {
            self.buffer.pop_front();
            proof {
                assert(self.buffer@ =~= b.skip(k + dropped + 1));
            }
            dropped = dropped + 1;
        }
        let mut events_to_apply: Vec<DepthUpdate> = Vec::new();
        let first = self.buffer.pop_front();
        let mut last_u: u64 = 0;
        match first {
            Some(ev) => {
                last_u = ev.final_update_id;
                events_to_apply.push(ev);
            },
            None => {},
        }
        proof {
            assert(self.buffer@ =~= b.skip(j + 1));
            assert(events_to_apply@ =~= b.subrange(j, j + 1));
            lemma_chain_end_bound(b, j + 1);
        }
        let ghost mut t: int = j + 1;
        while self.buffer.len() > 0
            invariant
                j + 1 <= t <= b.len(),
                0 <= j < b.len(),
                self.buffer@ == b.skip(t),
                events_to_apply@ == b.subrange(j, t),
                last_u == b[t - 1].final_update_id,
                t <= chain_end(b, j + 1),
                chain_end(b, j + 1) <= b.len(),
                t >= j + 1 ==> chain_end(b, j + 1) == chain_end(b, t),
                self.events_ignored == o.events_ignored + k,
                self@ == (SyncModel {
                    buffer: self@.buffer,
                    events_ignored: self@.events_ignored,
                    snapshot_last_update_id: l,
                    ..o
                }),
            ensures
                j + 1 <= t <= b.len(),
                self.buffer@ == b.skip(t),
                events_to_apply@ == b.subrange(j, t),
                last_u == b[t - 1].final_update_id,
                t <= chain_end(b, j + 1),
                chain_end(b, j + 1) <= b.len(),
                t >= j + 1 ==> chain_end(b, j + 1) == chain_end(b, t),
                self.buffer@.len() > 0 ==> t >= j + 1 && b[t].previous_final_update_id != b[t
                    - 1].final_update_id,
                self.events_ignored == o.events_ignored + k,
                self@ == (SyncModel {
                    buffer: self@.buffer,
                    events_ignored: self@.events_ignored,
                    snapshot_last_update_id: l,
                    ..o
                }),
            decreases self.buffer@.len(),
        {
            proof {
                assert(self.buffer@[0] == b[t]);
            }
            if self.buffer[0].previous_final_update_id != last_u {
                break;
            }
            let ev_opt = self.buffer.pop_front();
            match ev_opt {
                Some(ev) => {
                    last_u = ev.final_update_id;
                    events_to_apply.push(ev);
                },
                None => {},
            }
            proof {
                assert(self.buffer@ =~= b.skip(t + 1));
                assert(events_to_apply@ =~= b.subrange(j, t + 1));
                assert(b[t].previous_final_update_id == b[t - 1].final_update_id);
                assert(chain_end(b, t) == chain_end(b, t + 1));
                lemma_chain_end_bound(b, t + 1);
                t = t + 1;
            }
        }
        proof {
            if self.buffer@.len() > 0 {
                assert(chain_end(b, t) == t);
            } else {
                assert(t == b.len());
                lemma_chain_end_bound(b, j + 1);
            }
        }
        self.last_applied_u = Some(last_u);
        self.events_applied = self.events_applied + events_to_apply.len() as u64;
        self.state = SyncState::Synchronizing;
        self.buffer.clear();
        self.state = SyncState::Ready;
        Ok(events_to_apply)
    }

    /// Begin a resynchronization: back to `Buffering` with an empty buffer.
    pub fn trigger_resync(&mut self)
        requires
            old(self)@.resync_count < u64::MAX,
        ensures
            final(self)@ == (SyncModel {
                state: SyncState::Buffering,
                buffer: Seq::empty(),
                last_applied_u: None,
                resync_count: (old(self)@.resync_count + 1) as u64,
                ..old(self)@
            }),
    {
        self.resync_count = self.resync_count + 1;
        self.state = SyncState::Buffering;
        self.buffer.clear();
        self.last_applied_u = None;
    }

    /// Shut the synchronizer down.
    pub fn shutdown(&mut self)
        ensures
            final(self)@ == (SyncModel { state: SyncState::Stopping, ..old(self)@ }),
    {
        self.state = SyncState::Stopping;
    }

    pub fn events_received(&self) -> (r: u64)
        ensures
            r == self@.events_received,
    {
        self.events_received
    }

    pub fn events_applied(&self) -> (r: u64)
        ensures
            r == self@.events_applied,
    {
        self.events_applied
    }

    pub fn events_ignored(&self) -> (r: u64)
        ensures
            r == self@.events_ignored,
    {
        self.events_ignored
    }

    pub fn sequence_errors(&self) -> (r: u64)
        ensures
            r == self@.sequence_errors,
    {
        self.sequence_errors
    }

    pub fn resync_count(&self) -> (r: u64)
        ensures
            r == self@.resync_count,
    {
        self.resync_count
    }

    pub fn reconnect_count(&self) -> (r: u64)
        ensures
            r == self@.reconnect_count,
    {
        self.reconnect_count
    }

    pub fn last_applied_u(&self) -> (r: Option<u64>)
        ensures
            r == self@.last_applied_u,
    {
        self.last_applied_u
    }

    pub fn snapshot_last_update_id(&self) -> (r: u64)
        ensures
            r == self@.snapshot_last_update_id,
    {
        self.snapshot_last_update_id
    }

    pub fn buffer_size(&self) -> (r: usize)
        ensures
            r == self@.buffer.len(),
    {
        self.buffer.len()
    }

    pub fn is_ready(&self) -> (r: bool)
        ensures
            r == (self@.state == SyncState::Ready),
    {
        self.state == SyncState::Ready
    }
}

} // verus!
