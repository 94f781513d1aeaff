//! Storage worker: configuration, and the pending batches that it keeps
//! until storage accepts them.
use vstd::prelude::*;

use crate::recording::metrics::{StorageHealth, StorageState};
use crate::storage::{LevelChangeRow, RawEventRow, SnapshotRow, TradeRow};

verus! {

/// `Clone` of `std::time::Duration`, a `Copy` type: the clone equals the
/// original.
pub assume_specification[ <std::time::Duration as Clone>::clone ](d: &std::time::Duration) -> (r:
    std::time::Duration)
    ensures
        r == *d,
;

/// The span that `std::time::Duration::from_millis(ms)` gives.
pub uninterp spec fn millis_span(ms: u64) -> std::time::Duration;

/// `std::time::Duration::from_millis`: the span of `ms` milliseconds, named
/// `millis_span(ms)`; its contents are not visible here.
#[verifier::external_body]
fn duration_from_millis(ms: u64) -> (r: std::time::Duration)
    ensures
        r == millis_span(ms),
{
    std::time::Duration::from_millis(ms)
}

/// Tuning knobs of the storage worker.
#[derive(Debug, Clone)]
pub struct RecordingConfig {
    /// Rows per type that trigger a flush.
    pub batch_size: usize,
    /// Maximum time between flushes.
    pub flush_interval: std::time::Duration,
    /// Bounded channel capacity.
    pub queue_capacity: usize,
    /// Insert attempts per batch before giving up (the batch is kept).
    pub retry_attempts: u32,
    /// Base backoff between retries.
    pub retry_backoff: std::time::Duration,
}

impl RecordingConfig {
    /// A configuration; sizes and the flush interval are raised to at least 1,
    /// and failed inserts are retried 5 times, 200 ms apart at first.
    pub fn new(batch_size: usize, flush_interval_ms: u64, queue_capacity: usize) -> (r: Self)
        ensures
            r.batch_size == if batch_size >= 1 {
                batch_size
            } else {
                1
            },
            r.queue_capacity == if queue_capacity >= 1 {
                queue_capacity
            } else {
                1
            },
            r.flush_interval == millis_span(
                if flush_interval_ms >= 1 {
                    flush_interval_ms
                } else {
                    1
                },
            ),
            r.retry_attempts == 5,
            r.retry_backoff == millis_span(200),
    {
        let interval_ms: u64 = if flush_interval_ms >= 1 {
            flush_interval_ms
        } else {
            1
        };
        RecordingConfig {
            batch_size: if batch_size >= 1 {
                batch_size
            } else {
                1
            },
            flush_interval: duration_from_millis(interval_ms),
            queue_capacity: if queue_capacity >= 1 {
                queue_capacity
            } else {
                1
            },
            retry_attempts: 5,
            retry_backoff: duration_from_millis(200),
        }
    }
}

impl Default for RecordingConfig {
    fn default() -> (r: Self)
        ensures
            r.batch_size == 1000,
            r.queue_capacity == 100_000,
            r.flush_interval == millis_span(250),
            r.retry_attempts == 5,
            r.retry_backoff == millis_span(200),
    {
        RecordingConfig::new(1000, 250, 100_000)
    }
}

/// A single record queued for storage.
#[derive(Debug)]
pub enum Record {
    Raw(RawEventRow),
    Trade(TradeRow),
    Depth { rows: Vec<LevelChangeRow> },
    Snapshot(SnapshotRow),
}

/// Rows waiting to be written, per table. A batch that storage refuses is
/// put back, so no row is dropped.
pub struct PendingBatches {
    pub raw: Vec<RawEventRow>,
    pub trades: Vec<TradeRow>,
    pub depth: Vec<LevelChangeRow>,
    /// Only the latest snapshot is kept.
    pub snapshot: Option<SnapshotRow>,
}

/// Total payload length of raw rows, in UTF-8 bytes.
pub open spec fn payload_bytes(rows: Seq<RawEventRow>) -> nat
    decreases rows.len(),
{
    if rows.len() == 0 {
        0
    } else {
        payload_bytes(rows.drop_last()) + vstd::utf8::encode_utf8(rows.last().raw_payload@).len()
    }
}

impl PendingBatches {
    pub fn new() -> (r: Self)
        ensures
            r.raw@.len() == 0 && r.trades@.len() == 0 && r.depth@.len() == 0,
            r.snapshot is None,
    {
        PendingBatches { raw: Vec::new(), trades: Vec::new(), depth: Vec::new(), snapshot: None }
    }

    /// Queue a record: rows are appended to their table's batch; a snapshot
    /// replaces the pending one.
    pub fn enqueue(&mut self, record: Record)
        ensures
            match record {
                Record::Raw(row) => final(self).raw@ == old(self).raw@.push(row)
                    && final(self).trades@ == old(self).trades@ && final(self).depth@ == old(
                    self,
                ).depth@ && final(self).snapshot == old(self).snapshot,
                Record::Trade(row) => final(self).trades@ == old(self).trades@.push(row)
                    && final(self).raw@ == old(self).raw@ && final(self).depth@ == old(
                    self,
                ).depth@ && final(self).snapshot == old(self).snapshot,
                Record::Depth { rows } => final(self).depth@ == old(self).depth@ + rows@
                    && final(self).raw@ == old(self).raw@ && final(self).trades@ == old(
                    self,
                ).trades@ && final(self).snapshot == old(self).snapshot,
                Record::Snapshot(row) => final(self).snapshot == Some(row) && final(self).raw@
                    == old(self).raw@ && final(self).trades@ == old(self).trades@
                    && final(self).depth@ == old(self).depth@,
            },
    {
        match record {
            Record::Raw(row) => self.raw.push(row),
            Record::Trade(row) => self.trades.push(row),
            Record::Depth { rows } => {
                let mut rows = rows;
                self.depth.append(&mut rows);
            },
            Record::Snapshot(row) => self.snapshot = Some(row),
        }
    }

    /// Some table holds at least `batch_size` rows.
    pub fn threshold_reached(&self, batch_size: usize) -> (r: bool)
        ensures
            r == (self.raw@.len() >= batch_size || self.trades@.len() >= batch_size
                || self.depth@.len() >= batch_size),
    {
        self.raw.len() >= batch_size || self.trades.len() >= batch_size || self.depth.len()
            >= batch_size
    }

    /// Total payload length of the pending raw rows.
    pub fn raw_bytes(&self) -> (r: u64)
        requires
            payload_bytes(self.raw@) <= u64::MAX,
        ensures
            r == payload_bytes(self.raw@),
    {
        let mut total: u64 = 0;
        let mut i: usize = 0;
        while i < self.raw.len()
            invariant
                i <= self.raw@.len(),
                total == payload_bytes(self.raw@.take(i as int)),
                payload_bytes(self.raw@) <= u64::MAX,
            decreases self.raw@.len() - i,
        {
            proof {
                assert(self.raw@.take(i + 1).drop_last() =~= self.raw@.take(i as int));
                lemma_payload_bytes_prefix(self.raw@, i + 1);
            }
            total = total + self.raw[i].raw_payload.as_str().as_bytes().len() as u64;
            i = i + 1;
        }
        proof {
            assert(self.raw@.take(self.raw@.len() as int) =~= self.raw@);
        }
        total
    }

    /// Take the pending raw rows as a batch.
    pub fn take_raw(&mut self) -> (r: Vec<RawEventRow>)
        ensures
            r@ == old(self).raw@,
            final(self).raw@.len() == 0,
            final(self).trades@ == old(self).trades@ && final(self).depth@ == old(self).depth@,
            final(self).snapshot == old(self).snapshot,
    {
        let mut batch: Vec<RawEventRow> = Vec::new();
        std::mem::swap(&mut batch, &mut self.raw);
        batch
    }

    /// Put a refused raw batch back behind the rows now pending.
    pub fn restore_raw(&mut self, batch: Vec<RawEventRow>)
        ensures
            final(self).raw@ == old(self).raw@ + batch@,
            final(self).trades@ == old(self).trades@ && final(self).depth@ == old(self).depth@,
            final(self).snapshot == old(self).snapshot,
    {
        let mut batch = batch;
        self.raw.append(&mut batch);
    }

    /// Take the pending trade rows as a batch.
    pub fn take_trades(&mut self) -> (r: Vec<TradeRow>)
        ensures
            r@ == old(self).trades@,
            final(self).trades@.len() == 0,
            final(self).raw@ == old(self).raw@ && final(self).depth@ == old(self).depth@,
            final(self).snapshot == old(self).snapshot,
    {
        let mut batch: Vec<TradeRow> = Vec::new();
        std::mem::swap(&mut batch, &mut self.trades);
        batch
    }

    /// Put a refused trade batch back behind the rows now pending.
    pub fn restore_trades(&mut self, batch: Vec<TradeRow>)
        ensures
            final(self).trades@ == old(self).trades@ + batch@,
            final(self).raw@ == old(self).raw@ && final(self).depth@ == old(self).depth@,
            final(self).snapshot == old(self).snapshot,
    {
        let mut batch = batch;
        self.trades.append(&mut batch);
    }

    /// Take the pending level rows as a batch.
    pub fn take_depth(&mut self) -> (r: Vec<LevelChangeRow>)
        ensures
            r@ == old(self).depth@,
            final(self).depth@.len() == 0,
            final(self).raw@ == old(self).raw@ && final(self).trades@ == old(self).trades@,
            final(self).snapshot == old(self).snapshot,
    {
        let mut batch: Vec<LevelChangeRow> = Vec::new();
        std::mem::swap(&mut batch, &mut self.depth);
        batch
    }

    /// Put a refused level batch back behind the rows now pending.
    pub fn restore_depth(&mut self, batch: Vec<LevelChangeRow>)
        ensures
            final(self).depth@ == old(self).depth@ + batch@,
            final(self).raw@ == old(self).raw@ && final(self).trades@ == old(self).trades@,
            final(self).snapshot == old(self).snapshot,
    {
        let mut batch = batch;
        self.depth.append(&mut batch);
    }

    /// Take the pending snapshot.
    pub fn take_snapshot(&mut self) -> (r: Option<SnapshotRow>)
        ensures
            r == old(self).snapshot,
            final(self).snapshot is None,
            final(self).raw@ == old(self).raw@ && final(self).trades@ == old(self).trades@,
            final(self).depth@ == old(self).depth@,
    {
        let mut s: Option<SnapshotRow> = None;
        std::mem::swap(&mut s, &mut self.snapshot);
        s
    }

    /// Put a refused snapshot back.
    pub fn restore_snapshot(&mut self, snapshot: Option<SnapshotRow>)
        ensures
            final(self).snapshot == snapshot,
            final(self).raw@ == old(self).raw@ && final(self).trades@ == old(self).trades@,
            final(self).depth@ == old(self).depth@,
    {
        self.snapshot = snapshot;
    }
}

proof fn lemma_payload_bytes_prefix(rows: Seq<RawEventRow>, k: int)
    requires
        0 <= k <= rows.len(),
    ensures
        payload_bytes(rows.take(k)) <= payload_bytes(rows),
    decreases rows.len() - k,
{
    if k < rows.len() {
        assert(rows.take(k + 1).drop_last() =~= rows.take(k));
        lemma_payload_bytes_prefix(rows, k + 1);
    } else {
        assert(rows.take(k) =~= rows);
    }
}

/// A batch that was taken and refused, then put back, leaves the pending
/// rows as they were: a failed flush drops nothing.
pub proof fn lemma_refused_batch_kept<T>(pending: Seq<T>, after_take: Seq<T>, batch: Seq<T>)
    requires
        batch == pending,
        after_take.len() == 0,
    ensures
        after_take + batch == pending,
{
    assert(after_take + batch =~= pending);
}

impl StorageHealth {
    /// Record a failed insert: degraded, one more failure, the message kept.
    pub fn mark_degraded(&mut self, msg: &str)
        requires
            old(self).insert_failures < u64::MAX,
        ensures
            final(self).degraded,
            final(self).insert_failures == old(self).insert_failures + 1,
            final(self).last_error matches Some(e) && e@ == msg@,
            final(self).state == StorageState::Degraded,
            final(self).queue_overflows == old(self).queue_overflows,
    {
        self.degraded = true;
        self.insert_failures = self.insert_failures + 1;
        self.last_error = Some(msg.to_string());
        self.state = StorageState::Degraded;
    }
}

} // verus!
