//! Analytics configuration: every threshold is configurable; the defaults
//! target the BTCUSDT perpetual (tick size 0.10, step size 0.001 BTC).
use vstd::prelude::*;

use crate::orderbook::level::{
    price_str_to_ticks, quantity_str_to_ticks, text_ticks, TickParseError, TICK_SCALE,
};

verus! {

/// The analytics algorithm version stamped on every derived record.
pub const DEFAULT_ANALYTICS_VERSION: &'static str = "phase4-v1";

/// Default aggregation intervals (ms) for time-bucketed volume.
pub const DEFAULT_AGGREGATION_INTERVALS_MS: [u64; 4] = [100, 1_000, 5_000, 60_000];

/// BTCUSDT perpetual tick size (0.10 USDT).
pub const DEFAULT_TICK_SIZE_STR: &'static str = "0.10";

/// Default retention window for in-memory analytics state (15 minutes).
pub const DEFAULT_RETENTION_MS: u64 = 900_000;

/// Convert a BTC quantity text to integer ticks (1e8 scale).
pub fn btc_str_to_ticks(s: &str) -> (r: Result<u64, TickParseError>)
    ensures
        r == text_ticks(s@),
{
    quantity_str_to_ticks(s)
}

/// Analytics thresholds and windows, all in integer units.
#[derive(Debug, Clone)]
pub struct AnalyticsConfig {
    /// Algorithm version tag.
    pub analytics_version: String,
    /// Integer ticks per exchange tick size (BTCUSDT: 10_000_000).
    pub tick_size_ticks: u64,
    /// Quantity threshold (ticks) for large-trade detection.
    pub large_trade_min_quantity_ticks: u64,
    pub sweep_window_ms: u64,
    pub sweep_min_levels: u32,
    pub sweep_min_volume_ticks: u64,
    pub absorption_window_ms: u64,
    pub absorption_min_volume_ticks: u64,
    pub absorption_min_trades: u32,
    /// Maximum favourable excursion for absorption, in tick-size units.
    pub absorption_max_excursion_ticks: u64,
    /// A decrease followed by an increase at the same level within this
    /// window (ms) is flagged as replenishment.
    pub replenishment_window_ms: u64,
    /// Number of best levels used for imbalance and depth volumes.
    pub imbalance_depth: u32,
    pub snapshot_interval_ms: u64,
    pub aggregation_intervals_ms: Vec<u64>,
    pub heatmap_cell_ms: u64,
    /// Retention window (ms) for time-based state.
    pub retention_ms: u64,
    pub cluster_window_ms: u64,
    /// Cluster price range, in tick-size units.
    pub cluster_price_range_ticks: u64,
    /// Heatmap price aggregation factor (base ticks per grid tick).
    pub heatmap_price_aggregation: u64,
    pub heatmap_time_intervals: Vec<u64>,
    /// Maximum number of heatmap price levels (0 = unlimited).
    pub max_heatmap_price_levels: usize,
}

/// The default configuration for the BTCUSDT perpetual.
pub open spec fn is_default_config(r: AnalyticsConfig) -> bool {
    &&& r.analytics_version@ == DEFAULT_ANALYTICS_VERSION@
    &&& r.tick_size_ticks == (match text_ticks(DEFAULT_TICK_SIZE_STR@) {
                Ok(t) => t,
                Err(_) => (TICK_SCALE / 10) as u64,
            })
    &&& r.large_trade_min_quantity_ticks == 500_000_000
    &&& r.sweep_window_ms == 100
    &&& r.sweep_min_levels == 3
    &&& r.sweep_min_volume_ticks == 500_000_000
    &&& r.absorption_window_ms == 1_000
    &&& r.absorption_min_volume_ticks == 2_000_000_000
    &&& r.absorption_min_trades == 5
    &&& r.absorption_max_excursion_ticks == 3
    &&& r.replenishment_window_ms == 250
    &&& r.imbalance_depth == 10
    &&& r.snapshot_interval_ms == 1_000
    &&& r.aggregation_intervals_ms@ == seq![100u64, 1_000, 5_000, 60_000]
    &&& r.heatmap_cell_ms == 1_000
    &&& r.retention_ms == DEFAULT_RETENTION_MS
    &&& r.cluster_window_ms == 100
    &&& r.cluster_price_range_ticks == 3
    &&& r.heatmap_price_aggregation == 1
    &&& r.heatmap_time_intervals@ == seq![
                100u64,
                250,
                500,
                1_000,
                2_000,
                5_000,
                10_000,
                30_000,
                60_000,
            ]
    &&& r.max_heatmap_price_levels == 10_000
}

/// `a * b`, or `u64::MAX` when the product does not fit.
pub open spec fn saturating_product(a: u64, b: u64) -> u64 {
    if a * b > u64::MAX {
        u64::MAX
    } else {
        (a * b) as u64
    }
}

/// `a * b`, saturating at `u64::MAX`.
pub(crate) fn saturating_mul_u64(a: u64, b: u64) -> (r: u64)
    ensures
        r == saturating_product(a, b),
{
    assert((a as u128) * (b as u128) <= u64::MAX * u64::MAX) by (nonlinear_arith)
        requires
            a <= u64::MAX,
            b <= u64::MAX,
    ;
    let p: u128 = (a as u128) * (b as u128);
    if p > u64::MAX as u128 {
        u64::MAX
    } else {
        p as u64
    }
}

impl AnalyticsConfig {
    /// The default configuration for the BTCUSDT perpetual.
    pub fn btcusdt_default() -> (r: Self)
        ensures
            is_default_config(r),
    {
        let tick_size_ticks = match price_str_to_ticks(DEFAULT_TICK_SIZE_STR) {
            Ok(t) => t,
            Err(_) => TICK_SCALE / 10,
        };
        AnalyticsConfig {
            analytics_version: DEFAULT_ANALYTICS_VERSION.to_string(),
            tick_size_ticks,
            large_trade_min_quantity_ticks: 500_000_000,
            sweep_window_ms: 100,
            sweep_min_levels: 3,
            sweep_min_volume_ticks: 500_000_000,
            absorption_window_ms: 1_000,
            absorption_min_volume_ticks: 2_000_000_000,
            absorption_min_trades: 5,
            absorption_max_excursion_ticks: 3,
            replenishment_window_ms: 250,
            imbalance_depth: 10,
            snapshot_interval_ms: 1_000,
            aggregation_intervals_ms: vec![100, 1_000, 5_000, 60_000],
            heatmap_cell_ms: 1_000,
            retention_ms: DEFAULT_RETENTION_MS,
            cluster_window_ms: 100,
            cluster_price_range_ticks: 3,
            heatmap_price_aggregation: 1,
            heatmap_time_intervals: vec![100, 250, 500, 1_000, 2_000, 5_000, 10_000, 30_000, 60_000],
            max_heatmap_price_levels: 10_000,
        }
    }

    /// The absorption excursion in raw price ticks (saturating).
    pub fn absorption_max_excursion_raw(&self) -> (r: u64)
        ensures
            r == saturating_product(self.absorption_max_excursion_ticks, self.tick_size_ticks),
    {
        saturating_mul_u64(self.absorption_max_excursion_ticks, self.tick_size_ticks)
    }

    /// The cluster price range in raw price ticks (saturating).
    pub fn cluster_price_range_raw(&self) -> (r: u64)
        ensures
            r == saturating_product(self.cluster_price_range_ticks, self.tick_size_ticks),
    {
        saturating_mul_u64(self.cluster_price_range_ticks, self.tick_size_ticks)
    }

    /// The heatmap price aggregation factor.
    pub fn heatmap_price_aggregation_raw(&self) -> (r: u64)
        ensures
            r == self.heatmap_price_aggregation,
    {
        self.heatmap_price_aggregation
    }

    /// The heatmap time bucket intervals.
    pub fn heatmap_time_intervals(&self) -> (r: &Vec<u64>)
        ensures
            r@ == self.heatmap_time_intervals@,
    {
        &self.heatmap_time_intervals
    }
}

impl Default for AnalyticsConfig {
    fn default() -> (r: Self)
        ensures
            is_default_config(r),
    {
        AnalyticsConfig::btcusdt_default()
    }
}

} // verus!
