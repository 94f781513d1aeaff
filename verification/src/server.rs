//! Messages sent to the web front end.
use vstd::prelude::*;

use crate::analytics::heatmap::{
    HeatmapCellSnapshot, HeatmapDelta, HeatmapFrame, HeatmapSummary, HeatmapSummaryDelta,
};

verus! {

/// A heatmap frame as sent to the front end.
#[derive(Debug)]
pub struct HeatmapFrameSerde {
    pub timestamp: u64,
    pub visible_price_range: (u64, u64),
    pub time_range: (u64, u64),
    pub cells: Vec<HeatmapCellSnapshot>,
    pub summary: HeatmapSummary,
}

/// A heatmap delta as sent to the front end.
#[derive(Debug)]
pub struct HeatmapDeltaSerde {
    pub changed: Vec<(u64, HeatmapCellSnapshot)>,
    pub new: Vec<HeatmapCellSnapshot>,
    pub removed: Vec<u64>,
    pub summary_delta: SummaryDeltaSerde,
}

/// A summary delta as sent to the front end.
#[derive(Debug, Clone, Copy, PartialEq, Eq, Structural)]
pub struct SummaryDeltaSerde {
    pub total_executed_buy: u64,
    pub total_executed_sell: u64,
    pub total_delta: i128,
    pub total_trade_count: u64,
    pub total_liquidity_added: u64,
    pub total_liquidity_removed: u64,
    pub total_large_trade_volume: u64,
    pub total_replenishment_count: u64,
    pub total_absorption_candidate_count: u64,
    pub total_sweep_count: u64,
}

fn copy_cells(v: &Vec<HeatmapCellSnapshot>) -> (r: Vec<HeatmapCellSnapshot>)
    ensures
        r@ == v@,
{
    let mut out: Vec<HeatmapCellSnapshot> = Vec::new();
    let mut i: usize = 0;
    while i < v.len()
        invariant
            i <= v@.len(),
            out@ == v@.take(i as int),
        decreases v@.len() - i,
    {
        out.push(v[i]);
        assert(out@ =~= v@.take(i + 1));
        i = i + 1;
    }
    assert(v@.take(v@.len() as int) =~= v@);
    out
}

fn copy_pairs(v: &Vec<(u64, HeatmapCellSnapshot)>) -> (r: Vec<(u64, HeatmapCellSnapshot)>)
    ensures
        r@ == v@,
{
    let mut out: Vec<(u64, HeatmapCellSnapshot)> = Vec::new();
    let mut i: usize = 0;
    while i < v.len()
        invariant
            i <= v@.len(),
            out@ == v@.take(i as int),
        decreases v@.len() - i,
    {
        out.push(v[i]);
        assert(out@ =~= v@.take(i + 1));
        i = i + 1;
    }
    assert(v@.take(v@.len() as int) =~= v@);
    out
}

fn copy_prices(v: &Vec<u64>) -> (r: Vec<u64>)
    ensures
        r@ == v@,
{
    let mut out: Vec<u64> = Vec::new();
    let mut i: usize = 0;
    while i < v.len()
        invariant
            i <= v@.len(),
            out@ == v@.take(i as int),
        decreases v@.len() - i,
    {
        out.push(v[i]);
        assert(out@ =~= v@.take(i + 1));
        i = i + 1;
    }
    assert(v@.take(v@.len() as int) =~= v@);
    out
}

impl HeatmapFrameSerde {
    /// The message form of a frame.
    pub fn from_frame(f: &HeatmapFrame) -> (r: Self)
        ensures
            r.timestamp == f.timestamp,
            r.visible_price_range == f.visible_price_range,
            r.time_range == f.time_range,
            r.cells@ == f.cells@,
            r.summary == f.summary,
    {
        HeatmapFrameSerde {
            timestamp: f.timestamp,
            visible_price_range: f.visible_price_range,
            time_range: f.time_range,
            cells: copy_cells(&f.cells),
            summary: f.summary,
        }
    }
}

impl SummaryDeltaSerde {
    /// The message form of a summary delta.
    pub fn from_summary_delta(d: &HeatmapSummaryDelta) -> (r: Self)
        ensures
            r.total_executed_buy == d.total_executed_buy,
            r.total_executed_sell == d.total_executed_sell,
            r.total_delta == d.total_delta,
            r.total_trade_count == d.total_trade_count,
            r.total_liquidity_added == d.total_liquidity_added,
            r.total_liquidity_removed == d.total_liquidity_removed,
            r.total_large_trade_volume == d.total_large_trade_volume,
            r.total_replenishment_count == d.total_replenishment_count,
            r.total_absorption_candidate_count == d.total_absorption_candidate_count,
            r.total_sweep_count == d.total_sweep_count,
    {
        SummaryDeltaSerde {
            total_executed_buy: d.total_executed_buy,
            total_executed_sell: d.total_executed_sell,
            total_delta: d.total_delta,
            total_trade_count: d.total_trade_count,
            total_liquidity_added: d.total_liquidity_added,
            total_liquidity_removed: d.total_liquidity_removed,
            total_large_trade_volume: d.total_large_trade_volume,
            total_replenishment_count: d.total_replenishment_count,
            total_absorption_candidate_count: d.total_absorption_candidate_count,
            total_sweep_count: d.total_sweep_count,
        }
    }
}

impl HeatmapDeltaSerde {
    /// The message form of a delta.
    pub fn from_delta(d: &HeatmapDelta) -> (r: Self)
        ensures
            r.changed@ == d.changed@,
            r.new@ == d.new@,
            r.removed@ == d.removed@,
            r.summary_delta.total_executed_buy == d.summary_delta.total_executed_buy,
            r.summary_delta.total_executed_sell == d.summary_delta.total_executed_sell,
            r.summary_delta.total_delta == d.summary_delta.total_delta,
            r.summary_delta.total_trade_count == d.summary_delta.total_trade_count,
            r.summary_delta.total_liquidity_added == d.summary_delta.total_liquidity_added,
            r.summary_delta.total_liquidity_removed == d.summary_delta.total_liquidity_removed,
            r.summary_delta.total_large_trade_volume == d.summary_delta.total_large_trade_volume,
            r.summary_delta.total_replenishment_count
                == d.summary_delta.total_replenishment_count,
            r.summary_delta.total_absorption_candidate_count
                == d.summary_delta.total_absorption_candidate_count,
            r.summary_delta.total_sweep_count == d.summary_delta.total_sweep_count,
    {
        HeatmapDeltaSerde {
            changed: copy_pairs(&d.changed),
            new: copy_cells(&d.new),
            removed: copy_prices(&d.removed),
            summary_delta: SummaryDeltaSerde::from_summary_delta(&d.summary_delta),
        }
    }
}

/// Most full snapshots a client may have waiting.
pub const MAX_PENDING_SNAPSHOTS: u32 = 8;

/// Back-pressure of full snapshots on one client connection: each frame
/// counts one more pending snapshot and each delta settles one; a frame is
/// sent only while at most `MAX_PENDING_SNAPSHOTS` are pending.
#[derive(Debug, Clone, Copy, PartialEq, Eq, Structural)]
pub struct SnapshotThrottle {
    pub pending: u32,
}

impl SnapshotThrottle {
    pub fn new() -> (r: Self)
        ensures
            r.pending == 0,
    {
        SnapshotThrottle { pending: 0 }
    }

    /// A frame arrived: whether to send it.
    pub fn on_frame(&mut self) -> (r: bool)
        ensures
            final(self).pending == if old(self).pending == u32::MAX {
                u32::MAX
            } else {
                (old(self).pending + 1) as u32
            },
            r == (final(self).pending <= MAX_PENDING_SNAPSHOTS),
    {
        if self.pending < u32::MAX {
            self.pending = self.pending + 1;
        }
        self.pending <= MAX_PENDING_SNAPSHOTS
    }

    /// A delta arrived.
    pub fn on_delta(&mut self)
        ensures
            final(self).pending == if old(self).pending > 0 {
                (old(self).pending - 1) as u32
            } else {
                0
            },
    {
        if self.pending > 0 {
            self.pending = self.pending - 1;
        }
    }
}

} // verus!
