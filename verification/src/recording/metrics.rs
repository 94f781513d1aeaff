//! Recording metrics and storage health shared by the recorder and the
//! storage worker.
use vstd::prelude::*;

verus! {

/// Overall storage health shown in diagnostics.
#[derive(Debug, Clone, Copy, PartialEq, Eq, Structural)]
pub enum StorageState {
    Connecting,
    Healthy,
    Degraded,
    Failed,
}

/// Display label of a storage state.
pub open spec fn storage_state_label(s: StorageState) -> Seq<char> {
    match s {
        StorageState::Connecting => "CONNECTING"@,
        StorageState::Healthy => "CONNECTED"@,
        StorageState::Degraded => "DEGRADED"@,
        StorageState::Failed => "FAILED"@,
    }
}

impl StorageState {
    pub fn label(self) -> (r: &'static str)
        ensures
            r@ == storage_state_label(self),
    {
        match self {
            StorageState::Connecting => "CONNECTING",
            StorageState::Healthy => "CONNECTED",
            StorageState::Degraded => "DEGRADED",
            StorageState::Failed => "FAILED",
        }
    }
}

impl Default for StorageState {
    fn default() -> (r: Self)
        ensures
            r == StorageState::Connecting,
    {
        StorageState::Connecting
    }
}

/// Shared storage health signal.
#[derive(Debug, Clone)]
pub struct StorageHealth {
    pub state: StorageState,
    pub degraded: bool,
    pub last_error: Option<String>,
    pub queue_overflows: u64,
    pub insert_failures: u64,
}

impl StorageHealth {
    /// Connecting, not degraded, no error, no failures.
    pub fn new() -> (r: Self)
        ensures
            r.state == StorageState::Connecting,
            !r.degraded,
            r.last_error is None,
            r.queue_overflows == 0,
            r.insert_failures == 0,
    {
        StorageHealth {
            state: StorageState::Connecting,
            degraded: false,
            last_error: None,
            queue_overflows: 0,
            insert_failures: 0,
        }
    }
}

impl Default for StorageHealth {
    fn default() -> (r: Self)
        ensures
            r.state == StorageState::Connecting,
            !r.degraded,
            r.last_error is None,
            r.queue_overflows == 0,
            r.insert_failures == 0,
    {
        StorageHealth::new()
    }
}

/// Counters of the recorder and storage worker.
#[derive(Debug, Clone, Copy, PartialEq, Eq, Structural)]
pub struct RecorderMetrics {
    pub raw_received: u64,
    pub raw_bytes_received: u64,
    pub raw_stored: u64,
    pub raw_bytes_stored: u64,
    pub raw_dropped: u64,
    pub trades_received: u64,
    pub trades_stored: u64,
    pub trades_dropped: u64,
    pub marker_rejected: u64,
    pub invalid_rejected: u64,
    pub depth_events_received: u64,
    pub level_changes_stored: u64,
    pub depth_dropped: u64,
    pub snapshots_stored: u64,
    pub batches_flushed: u64,
    pub failed_batches: u64,
    /// Insert attempts that failed and were retried.
    pub retries: u64,
    pub queue_depth: usize,
    pub queue_high_water: usize,
    pub last_flush_duration_ns: u128,
    pub max_flush_duration_ns: u128,
    pub total_flush_duration_ns: u128,
    pub flush_ops: u64,
    pub queue_capacity: usize,
}

impl RecorderMetrics {
    /// Mean flush duration (integer division), 0 before any flush.
    pub fn avg_flush_duration_ns(&self) -> (r: u128)
        ensures
            r == if self.flush_ops == 0 {
                0
            } else {
                self.total_flush_duration_ns / (self.flush_ops as u128)
            },
    {
        if self.flush_ops == 0 {
            0
        } else {
            self.total_flush_duration_ns / self.flush_ops as u128
        }
    }

    /// Record one flush of the given duration.
    pub fn record_flush(&mut self, duration_ns: u128)
        requires
            old(self).flush_ops < u64::MAX,
            old(self).total_flush_duration_ns + duration_ns <= u128::MAX,
        ensures
            *final(self) == (RecorderMetrics {
                flush_ops: (old(self).flush_ops + 1) as u64,
                total_flush_duration_ns: (old(self).total_flush_duration_ns + duration_ns) as u128,
                last_flush_duration_ns: duration_ns,
                max_flush_duration_ns: if duration_ns > old(self).max_flush_duration_ns {
                    duration_ns
                } else {
                    old(self).max_flush_duration_ns
                },
                ..*old(self)
            }),
    {
        self.flush_ops = self.flush_ops + 1;
        self.total_flush_duration_ns = self.total_flush_duration_ns + duration_ns;
        self.last_flush_duration_ns = duration_ns;
        if duration_ns > self.max_flush_duration_ns {
            self.max_flush_duration_ns = duration_ns;
        }
    }
}

/// Every counter zero.
pub open spec fn zero_metrics() -> RecorderMetrics {
    RecorderMetrics {
        raw_received: 0,
        raw_bytes_received: 0,
        raw_stored: 0,
        raw_bytes_stored: 0,
        raw_dropped: 0,
        trades_received: 0,
        trades_stored: 0,
        trades_dropped: 0,
        marker_rejected: 0,
        invalid_rejected: 0,
        depth_events_received: 0,
        level_changes_stored: 0,
        depth_dropped: 0,
        snapshots_stored: 0,
        batches_flushed: 0,
        failed_batches: 0,
        retries: 0,
        queue_depth: 0,
        queue_high_water: 0,
        last_flush_duration_ns: 0,
        max_flush_duration_ns: 0,
        total_flush_duration_ns: 0,
        flush_ops: 0,
        queue_capacity: 0,
    }
}

impl Default for RecorderMetrics {
    fn default() -> (r: Self)
        ensures
            r == zero_metrics(),
    {
        RecorderMetrics {
            raw_received: 0,
            raw_bytes_received: 0,
            raw_stored: 0,
            raw_bytes_stored: 0,
            raw_dropped: 0,
            trades_received: 0,
            trades_stored: 0,
            trades_dropped: 0,
            marker_rejected: 0,
            invalid_rejected: 0,
            depth_events_received: 0,
            level_changes_stored: 0,
            depth_dropped: 0,
            snapshots_stored: 0,
            batches_flushed: 0,
            failed_batches: 0,
            retries: 0,
            queue_depth: 0,
            queue_high_water: 0,
            last_flush_duration_ns: 0,
            max_flush_duration_ns: 0,
            total_flush_duration_ns: 0,
            flush_ops: 0,
            queue_capacity: 0,
        }
    }
}

} // verus!
