//! Sweep evidence: a closed cluster of aggressive trades that crossed enough
//! price levels, in one direction, quickly and with enough volume.
//!
//! The gates here are exact integer tests; the confidence score that ranks a
//! candidate is computed by the caller from the evidence.
use vstd::prelude::*;

use crate::analytics::clusters::{sat_sub, TradeCluster};
use crate::analytics::config::AnalyticsConfig;
use crate::trades::trade::AggressorSide;

verus! {

/// The integer evidence of a sweep candidate.
#[derive(Debug, Clone, Copy, PartialEq, Eq, Structural)]
pub struct SweepEvidence {
    pub side: AggressorSide,
    pub start_ms: u64,
    pub end_ms: u64,
    pub levels_crossed: u32,
    pub volume: u64,
    /// Distance moved in the dominant side's direction.
    pub price_displacement_ticks: u64,
    pub first_price: u64,
    pub last_price: u64,
    pub duration_ms: u64,
    /// Volume of the dominant side.
    pub dominant_volume: u64,
}

/// The cluster passes every sweep gate: short enough, enough levels,
/// monotonic, enough volume, and the dominant side holds at least half of
/// a non-zero volume.
pub open spec fn is_sweep(cfg: AnalyticsConfig, c: TradeCluster) -> bool {
    let dom = if c.dominant_side == AggressorSide::Buy {
        c.buy_volume
    } else {
        c.sell_volume
    };
    &&& sat_sub(c.end_ms, c.start_ms) <= cfg.sweep_window_ms
    &&& c.levels_crossed >= cfg.sweep_min_levels
    &&& c.monotonic
    &&& c.total_volume >= cfg.sweep_min_volume_ticks
    &&& c.total_volume > 0
    &&& 2 * dom >= c.total_volume
}

/// The evidence reported for a cluster that passes the gates.
pub open spec fn sweep_evidence_of(c: TradeCluster) -> SweepEvidence {
    SweepEvidence {
        side: c.dominant_side,
        start_ms: c.start_ms,
        end_ms: c.end_ms,
        levels_crossed: c.levels_crossed,
        volume: c.total_volume,
        price_displacement_ticks: if c.dominant_side == AggressorSide::Buy {
            sat_sub(c.last_price, c.first_price)
        } else {
            sat_sub(c.first_price, c.last_price)
        },
        first_price: c.first_price,
        last_price: c.last_price,
        duration_ms: sat_sub(c.end_ms, c.start_ms),
        dominant_volume: if c.dominant_side == AggressorSide::Buy {
            c.buy_volume
        } else {
            c.sell_volume
        },
    }
}

/// The displacement of a sweep is measured in its dominant side's
/// direction: for a sell sweep it is how far the price fell from the first
/// trade to the last (`first_price - last_price`), for a buy sweep how far it
/// rose (`last_price - first_price`), and 0 when the price ended on the other
/// side of where it started. The evidence keeps the cluster's side, prices,
/// levels and volume.
pub proof fn lemma_sweep_displacement(c: TradeCluster)
    ensures
        ({
            let e = sweep_evidence_of(c);
            &&& e.side == c.dominant_side
            &&& e.first_price == c.first_price
            &&& e.last_price == c.last_price
            &&& e.levels_crossed == c.levels_crossed
            &&& e.volume == c.total_volume
            &&& (c.dominant_side == AggressorSide::Sell && c.last_price <= c.first_price
                ==> e.price_displacement_ticks + c.last_price == c.first_price)
            &&& (c.dominant_side == AggressorSide::Sell && c.last_price > c.first_price
                ==> e.price_displacement_ticks == 0)
            &&& (c.dominant_side == AggressorSide::Buy && c.last_price >= c.first_price
                ==> c.first_price + e.price_displacement_ticks == c.last_price)
            &&& (c.dominant_side == AggressorSide::Buy && c.last_price < c.first_price
                ==> e.price_displacement_ticks == 0)
        }),
{
}

/// The sweep evidence of a closed cluster, or `None` when a gate fails.
pub fn sweep_evidence(cfg: &AnalyticsConfig, cluster: &TradeCluster) -> (r: Option<SweepEvidence>)
    ensures
        r == (if is_sweep(*cfg, *cluster) {
            Some(sweep_evidence_of(*cluster))
        } else {
            None
        }),
        r matches Some(e) ==> {
            &&& e.side == cluster.dominant_side
            &&& (e.side == AggressorSide::Sell && cluster.last_price <= cluster.first_price
                ==> e.price_displacement_ticks + cluster.last_price == cluster.first_price)
            &&& (e.side == AggressorSide::Buy && cluster.last_price >= cluster.first_price
                ==> cluster.first_price + e.price_displacement_ticks == cluster.last_price)
        },
{
    let duration = cluster.duration_ms();
    if duration > cfg.sweep_window_ms {
        return None;
    }
    if cluster.levels_crossed < cfg.sweep_min_levels {
        return None;
    }
    if !cluster.monotonic {
        return None;
    }
    if cluster.total_volume < cfg.sweep_min_volume_ticks {
        return None;
    }
    let dom = cluster.dominant_volume();
    if cluster.total_volume == 0 || (dom as u128) * 2 < cluster.total_volume as u128 {
        return None;
    }
    let side = cluster.dominant_side;
    let displacement = match side {
        AggressorSide::Buy => if cluster.last_price >= cluster.first_price {
            cluster.last_price - cluster.first_price
        } else {
            0
        },
        AggressorSide::Sell => if cluster.first_price >= cluster.last_price {
            cluster.first_price - cluster.last_price
        } else {
            0
        },
    };
    Some(
        SweepEvidence {
            side,
            start_ms: cluster.start_ms,
            end_ms: cluster.end_ms,
            levels_crossed: cluster.levels_crossed,
            volume: cluster.total_volume,
            price_displacement_ticks: displacement,
            first_price: cluster.first_price,
            last_price: cluster.last_price,
            duration_ms: duration,
            dominant_volume: dom,
        },
    )
}

} // verus!
