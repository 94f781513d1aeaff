//! Price × time heatmap data model.
//!
//! Per price level and time bucket the heatmap tracks executed flow, resting
//! visible liquidity and derived signals (sweeps, absorption, replenishment).
//! All values are integers, buckets are keyed by exchange time only and every
//! iteration follows key order, so identical event streams give identical
//! heatmaps.
use std::collections::BTreeMap;
use vstd::prelude::*;

use crate::analytics::book::{BookSide, LevelChange};
use crate::analytics::config::{saturating_mul_u64, saturating_product, AnalyticsConfig};
use crate::ordered_map::{is_sorted_u64_keys, key_lt, u64_map_keys};
use crate::text::{decimal_text, push_decimal, push_signed, push_str, signed_decimal_text};
use crate::trades::trade::{AggressorSide, TradeEvent};

verus! {

broadcast use vstd::std_specs::btree::group_btree_axioms, vstd::laws_cmp::group_laws_cmp;

/// One heatmap cell: flow and liquidity at a price within a time bucket.
#[derive(Debug, Clone, Copy, PartialEq, Eq, Structural)]
pub struct HeatmapCell {
    /// Grid-aligned price tick.
    pub price: u64,
    pub resting_bid_liquidity: u64,
    pub resting_ask_liquidity: u64,
    /// Cumulative liquidity added (both sides).
    pub liquidity_added: u64,
    /// Cumulative liquidity removed (both sides).
    pub liquidity_removed: u64,
    pub executed_buy_volume: u64,
    pub executed_sell_volume: u64,
    /// Buy minus sell volume.
    pub delta: i128,
    pub trade_count: u64,
    pub large_trade_volume: u64,
    pub replenishment_count: u64,
    pub absorption_candidate_count: u64,
    pub sweep_count: u64,
    /// Net buy pressure.
    pub pressure: i128,
    /// Start of the bucket the cell belongs to, once assigned.
    pub timestamp_bucket: Option<u64>,
}

/// A fresh cell at `price`: every counter zero, no bucket.
pub open spec fn new_cell(price: u64) -> HeatmapCell {
    HeatmapCell {
        price,
        resting_bid_liquidity: 0,
        resting_ask_liquidity: 0,
        liquidity_added: 0,
        liquidity_removed: 0,
        executed_buy_volume: 0,
        executed_sell_volume: 0,
        delta: 0,
        trade_count: 0,
        large_trade_volume: 0,
        replenishment_count: 0,
        absorption_candidate_count: 0,
        sweep_count: 0,
        pressure: 0,
        timestamp_bucket: None,
    }
}

impl HeatmapCell {
    pub fn new(price: u64) -> (r: Self)
        ensures
            r == new_cell(price),
    {
        HeatmapCell {
            price,
            resting_bid_liquidity: 0,
            resting_ask_liquidity: 0,
            liquidity_added: 0,
            liquidity_removed: 0,
            executed_buy_volume: 0,
            executed_sell_volume: 0,
            delta: 0,
            trade_count: 0,
            large_trade_volume: 0,
            replenishment_count: 0,
            absorption_candidate_count: 0,
            sweep_count: 0,
            pressure: 0,
            timestamp_bucket: None,
        }
    }

    /// Buy plus sell volume.
    pub fn total_executed_volume(&self) -> (r: u64)
        requires
            self.executed_buy_volume + self.executed_sell_volume <= u64::MAX,
        ensures
            r == self.executed_buy_volume + self.executed_sell_volume,
    {
        self.executed_buy_volume + self.executed_sell_volume
    }

    /// Whether any trade executed in the cell.
    pub fn has_executed_volume(&self) -> (r: bool)
        ensures
            r == (self.trade_count > 0),
    {
        self.trade_count > 0
    }

    /// Whether the cell holds resting liquidity on either side.
    pub fn has_resting_liquidity(&self) -> (r: bool)
        ensures
            r == (self.resting_bid_liquidity > 0 || self.resting_ask_liquidity > 0),
    {
        self.resting_bid_liquidity > 0 || self.resting_ask_liquidity > 0
    }
}

impl Default for HeatmapCell {
    fn default() -> (r: Self)
        ensures
            r == new_cell(0),
    {
        HeatmapCell::new(0)
    }
}

/// Abstract state of a [`Heatmap`].
pub struct HeatmapModel {
    /// Bucket start → grid price → cell.
    pub buckets: Map<u64, Map<u64, HeatmapCell>>,
    pub cell_ms: u64,
    pub retention_ms: u64,
    pub price_aggregation: u64,
    /// One exchange tick in raw ticks.
    pub tick_size_ticks: u64,
    pub time_intervals: Seq<u64>,
}

/// The width of a cell in raw ticks: `agg` exchange ticks of `tick` raw
/// ticks each (saturating), or `agg` raw ticks when the tick size is 0.
pub open spec fn cell_width(agg: u64, tick: u64) -> u64 {
    if tick == 0 {
        agg
    } else {
        saturating_product(agg, tick)
    }
}

/// The grid price of a raw price tick: the price itself without
/// aggregation, otherwise the start of its cell of `agg` exchange ticks.
pub open spec fn grid_price(agg: u64, tick: u64, p: u64) -> u64 {
    if agg == 1 {
        p
    } else {
        (p - p % cell_width(agg, tick)) as u64
    }
}

/// The cells of bucket `bs` (none when the bucket does not exist).
pub open spec fn inner_at(b: Map<u64, Map<u64, HeatmapCell>>, bs: u64) -> Map<u64, HeatmapCell> {
    if b.contains_key(bs) {
        b[bs]
    } else {
        Map::empty()
    }
}

/// The cell at (`bs`, `p`), or a fresh one.
pub open spec fn cell_at(b: Map<u64, Map<u64, HeatmapCell>>, bs: u64, p: u64) -> HeatmapCell {
    if inner_at(b, bs).contains_key(p) {
        inner_at(b, bs)[p]
    } else {
        new_cell(p)
    }
}

/// The buckets with the cell at (`bs`, `p`) replaced by `c`.
pub open spec fn with_cell(b: Map<u64, Map<u64, HeatmapCell>>, bs: u64, p: u64, c: HeatmapCell) -> Map<
    u64,
    Map<u64, HeatmapCell>,
> {
    b.insert(bs, inner_at(b, bs).insert(p, c))
}

/// The cell touched by an event at time `ts` and raw price `price`, stamped
/// with its bucket and grid price.
pub open spec fn touched(m: HeatmapModel, ts: u64, price: u64) -> HeatmapCell {
    let bs = (ts - ts % m.cell_ms) as u64;
    let p = grid_price(m.price_aggregation, m.tick_size_ticks, price);
    HeatmapCell { timestamp_bucket: Some(bs), price: p, ..cell_at(m.buckets, bs, p) }
}

/// The heatmap after replacing the cell touched at (`ts`, `price`) by `c`.
pub open spec fn after_touch(m: HeatmapModel, ts: u64, price: u64, c: HeatmapCell) -> HeatmapModel {
    let bs = (ts - ts % m.cell_ms) as u64;
    let p = grid_price(m.price_aggregation, m.tick_size_ticks, price);
    HeatmapModel { buckets: with_cell(m.buckets, bs, p, c), ..m }
}

/// A cell after one trade.
pub open spec fn cell_after_trade(c: HeatmapCell, qty: u64, side: AggressorSide) -> HeatmapCell {
    let s: int = if side == AggressorSide::Buy {
        qty as int
    } else {
        -(qty as int)
    };
    HeatmapCell {
        trade_count: (c.trade_count + 1) as u64,
        executed_buy_volume: (c.executed_buy_volume + if side == AggressorSide::Buy {
            qty as int
        } else {
            0
        }) as u64,
        executed_sell_volume: (c.executed_sell_volume + if side == AggressorSide::Sell {
            qty as int
        } else {
            0
        }) as u64,
        delta: (c.delta + s) as i128,
        pressure: (c.pressure + s) as i128,
        ..c
    }
}

/// A cell after a level change of one side to quantity `new`.
pub open spec fn cell_after_level(c: HeatmapCell, side: BookSide, new: u64) -> HeatmapCell {
    let old = if side == BookSide::Bid {
        c.resting_bid_liquidity
    } else {
        c.resting_ask_liquidity
    };
    if new > old {
        let c1 = HeatmapCell { liquidity_added: (c.liquidity_added + (new - old)) as u64, ..c };
        if side == BookSide::Bid {
            HeatmapCell { resting_bid_liquidity: new, ..c1 }
        } else {
            HeatmapCell { resting_ask_liquidity: new, ..c1 }
        }
    } else if new < old {
        let c1 = HeatmapCell { liquidity_removed: (c.liquidity_removed + (old - new)) as u64, ..c };
        if side == BookSide::Bid {
            HeatmapCell { resting_bid_liquidity: new, ..c1 }
        } else {
            HeatmapCell { resting_ask_liquidity: new, ..c1 }
        }
    } else {
        c
    }
}

/// A listing of every cell as `(bucket, price, cell)`, in increasing
/// (bucket, price) order.
pub open spec fn is_cell_listing(
    m: Map<u64, Map<u64, HeatmapCell>>,
    s: Seq<(u64, u64, HeatmapCell)>,
) -> bool {
    &&& forall|i: int, j: int|
        0 <= i < j < s.len() ==> key_lt((s[i].0, s[i].1), (s[j].0, s[j].1))
    &&& forall|i: int|
        0 <= i < s.len() ==> #[trigger] m.contains_key(s[i].0) && m[s[i].0].contains_key(s[i].1)
            && m[s[i].0][s[i].1] == s[i].2
    &&& forall|b: u64, p: u64| #[trigger]
        m.contains_key(b) && #[trigger] m[b].contains_key(p) ==> exists|i: int|
            0 <= i < s.len() && s[i].0 == b && s[i].1 == p
}

/// A numeric field of a cell.
#[derive(Debug, Clone, Copy, PartialEq, Eq, Structural)]
pub enum CellField {
    RestingBid,
    RestingAsk,
    LiquidityAdded,
    LiquidityRemoved,
    ExecutedBuy,
    ExecutedSell,
    ExecutedTotal,
    Delta,
    TradeCount,
    LargeTradeVolume,
    Replenishments,
    Absorptions,
    Sweeps,
    Pressure,
}

/// The value of a field of a cell.
pub open spec fn field_value(c: HeatmapCell, f: CellField) -> int {
    match f {
        CellField::RestingBid => c.resting_bid_liquidity as int,
        CellField::RestingAsk => c.resting_ask_liquidity as int,
        CellField::LiquidityAdded => c.liquidity_added as int,
        CellField::LiquidityRemoved => c.liquidity_removed as int,
        CellField::ExecutedBuy => c.executed_buy_volume as int,
        CellField::ExecutedSell => c.executed_sell_volume as int,
        CellField::ExecutedTotal => c.executed_buy_volume + c.executed_sell_volume,
        CellField::Delta => c.delta as int,
        CellField::TradeCount => c.trade_count as int,
        CellField::LargeTradeVolume => c.large_trade_volume as int,
        CellField::Replenishments => c.replenishment_count as int,
        CellField::Absorptions => c.absorption_candidate_count as int,
        CellField::Sweeps => c.sweep_count as int,
        CellField::Pressure => c.pressure as int,
    }
}

/// Whether a field is signed.
pub open spec fn signed_field(f: CellField) -> bool {
    f == CellField::Delta || f == CellField::Pressure
}

/// Sum of a field over the cells of a listing.
pub open spec fn sum_cells(s: Seq<(u64, u64, HeatmapCell)>, f: CellField) -> int
    decreases s.len(),
{
    if s.len() == 0 {
        0
    } else {
        sum_cells(s.drop_last(), f) + field_value(s.last().2, f)
    }
}

/// Every running sum of the field stays within its integer type (`i128` for
/// signed fields, `u64` for the others).
pub open spec fn prefix_sums_fit(s: Seq<(u64, u64, HeatmapCell)>, f: CellField) -> bool {
    forall|k: int|
        0 <= k <= s.len() ==> if signed_field(f) {
            i128::MIN <= #[trigger] sum_cells(s.take(k), f) <= i128::MAX
        } else {
            0 <= #[trigger] sum_cells(s.take(k), f) <= u64::MAX
        }
}

/// Every field's running sums fit over every listing of the buckets.
pub open spec fn sums_fit(m: Map<u64, Map<u64, HeatmapCell>>) -> bool {
    forall|s: Seq<(u64, u64, HeatmapCell)>, f: CellField|
        is_cell_listing(m, s) ==> #[trigger] prefix_sums_fit(s, f)
}

/// `a - b`, or 0 when `b > a`.
pub open spec fn saturating_diff(a: u64, b: u64) -> u64 {
    if a >= b {
        (a - b) as u64
    } else {
        0
    }
}

/// A listed cell lies in bucket `cutoff` or later and in prices `[lo, hi]`.
pub open spec fn in_window(t: (u64, u64, HeatmapCell), lo: u64, hi: u64, cutoff: u64) -> bool {
    cutoff <= t.0 && lo <= t.1 <= hi
}

/// The window test as a predicate on listed cells.
pub open spec fn window_pred(lo: u64, hi: u64, cutoff: u64) -> spec_fn((u64, u64, HeatmapCell)) -> bool {
    |t: (u64, u64, HeatmapCell)| in_window(t, lo, hi, cutoff)
}

/// The listed cells in the window, in listing order.
pub open spec fn window_cells(s: Seq<(u64, u64, HeatmapCell)>, lo: u64, hi: u64, cutoff: u64) -> Seq<
    (u64, u64, HeatmapCell),
> {
    s.filter(window_pred(lo, hi, cutoff))
}

/// The window holds exactly the listed cells whose bucket starts at or after
/// `cutoff` and whose price lies in `[lo, hi]`: every cell in it meets both
/// bounds, every listed cell that meets them is in it, and nothing else is.
pub proof fn lemma_window_cells_exact(s: Seq<(u64, u64, HeatmapCell)>, lo: u64, hi: u64, cutoff: u64)
    ensures
        ({
            let w = window_cells(s, lo, hi, cutoff);
            &&& w.len() <= s.len()
            &&& forall|i: int|
                0 <= i < w.len() ==> cutoff <= (#[trigger] w[i]).0 && lo <= w[i].1 <= hi
                    && s.contains(w[i])
            &&& forall|i: int|
                0 <= i < s.len() && cutoff <= (#[trigger] s[i]).0 && lo <= s[i].1 <= hi
                    ==> w.contains(s[i])
        }),
{
    let pred = window_pred(lo, hi, cutoff);
    let w = s.filter(pred);
    s.lemma_filter_len(pred);
    assert forall|i: int| 0 <= i < w.len() implies cutoff <= (#[trigger] w[i]).0 && lo <= w[i].1
        <= hi && s.contains(w[i]) by {
        s.lemma_filter_pred(pred, i);
        assert(w.contains(w[i]));
        s.lemma_filter_contains_rev(pred, w[i]);
    }
    assert forall|i: int| 0 <= i < s.len() && cutoff <= (#[trigger] s[i]).0 && lo <= s[i].1 <= hi
        implies w.contains(s[i]) by {
        assert(pred(s[i]));
        s.lemma_filter_contains(pred, i);
    }
}

/// Cells that all lie in buckets starting before `cutoff` leave the window
/// empty, so every sum over it is zero.
pub proof fn lemma_window_before_cutoff_empty(
    s: Seq<(u64, u64, HeatmapCell)>,
    lo: u64,
    hi: u64,
    cutoff: u64,
)
    requires
        forall|i: int| 0 <= i < s.len() ==> (#[trigger] s[i]).0 < cutoff,
    ensures
        window_cells(s, lo, hi, cutoff).len() == 0,
        forall|f: CellField| #[trigger] sum_cells(window_cells(s, lo, hi, cutoff), f) == 0,
{
    let w = window_cells(s, lo, hi, cutoff);
    lemma_window_cells_exact(s, lo, hi, cutoff);
    if w.len() > 0 {
        assert(cutoff <= w[0].0);
        assert(s.contains(w[0]));
        let j = choose|j: int| 0 <= j < s.len() && s[j] == w[0];
        assert(s[j].0 < cutoff);
    }
}

/// The value of a field of a cell, computed.
fn field_of(c: &HeatmapCell, f: CellField) -> (r: i128)
    ensures
        r == field_value(*c, f),
{
    match f {
        CellField::RestingBid => c.resting_bid_liquidity as i128,
        CellField::RestingAsk => c.resting_ask_liquidity as i128,
        CellField::LiquidityAdded => c.liquidity_added as i128,
        CellField::LiquidityRemoved => c.liquidity_removed as i128,
        CellField::ExecutedBuy => c.executed_buy_volume as i128,
        CellField::ExecutedSell => c.executed_sell_volume as i128,
        CellField::ExecutedTotal => c.executed_buy_volume as i128 + c.executed_sell_volume as i128,
        CellField::Delta => c.delta,
        CellField::TradeCount => c.trade_count as i128,
        CellField::LargeTradeVolume => c.large_trade_volume as i128,
        CellField::Replenishments => c.replenishment_count as i128,
        CellField::Absorptions => c.absorption_candidate_count as i128,
        CellField::Sweeps => c.sweep_count as i128,
        CellField::Pressure => c.pressure,
    }
}

/// Sum of a field over listed cells.
fn sum_field(s: &Vec<(u64, u64, HeatmapCell)>, f: CellField) -> (r: i128)
    requires
        prefix_sums_fit(s@, f),
    ensures
        r == sum_cells(s@, f),
        !signed_field(f) ==> 0 <= r <= u64::MAX,
{
    let mut acc: i128 = 0;
    let mut i: usize = 0;
    while i < s.len()
        invariant
            i <= s@.len(),
            acc == sum_cells(s@.take(i as int), f),
            prefix_sums_fit(s@, f),
        decreases s@.len() - i,
    {
        proof {
            assert(s@.take(i + 1).drop_last() =~= s@.take(i as int));
            assert(s@.take(i + 1).last() == s@[i as int]);
            assert(i128::MIN <= sum_cells(s@.take(i + 1), f) <= i128::MAX);
        }
        let v = field_of(&s[i].2, f);
        acc = acc + v;
        i = i + 1;
    }
    proof {
        assert(s@.take(s@.len() as int) =~= s@);
        assert(i128::MIN <= sum_cells(s@.take(s@.len() as int), f) <= i128::MAX);
    }
    acc
}

/// The listed cells in the window.
fn filter_window(s: &Vec<(u64, u64, HeatmapCell)>, lo: u64, hi: u64, cutoff: u64) -> (r: Vec<
    (u64, u64, HeatmapCell),
>)
    ensures
        r@ == window_cells(s@, lo, hi, cutoff),
{
    let mut out: Vec<(u64, u64, HeatmapCell)> = Vec::new();
    let mut i: usize = 0;
    while i < s.len()
        invariant
            i <= s@.len(),
            out@ == window_cells(s@.take(i as int), lo, hi, cutoff),
        decreases s@.len() - i,
    {
        proof {
            assert(s@.take(i + 1).drop_last() =~= s@.take(i as int));
            assert(s@.take(i + 1).last() == s@[i as int]);
            reveal(Seq::filter);
        }
        let t = s[i];
        if cutoff <= t.0 && lo <= t.1 && t.1 <= hi {
            out.push(t);
        }
        i = i + 1;
    }
    proof {
        assert(s@.take(s@.len() as int) =~= s@);
    }
    out
}

/// The heatmap: bucket start → grid price → cell.
pub struct Heatmap {
    buckets: BTreeMap<u64, BTreeMap<u64, HeatmapCell>>,
    cell_ms: u64,
    retention_ms: u64,
    price_aggregation: u64,
    tick_size_ticks: u64,
    time_intervals: Vec<u64>,
}

impl View for Heatmap {
    type V = HeatmapModel;

    closed spec fn view(&self) -> HeatmapModel {
        HeatmapModel {
            buckets: self.buckets@.map_values(|m: BTreeMap<u64, HeatmapCell>| m@),
            cell_ms: self.cell_ms,
            retention_ms: self.retention_ms,
            price_aggregation: self.price_aggregation,
            tick_size_ticks: self.tick_size_ticks,
            time_intervals: self.time_intervals@,
        }
    }
}

/// The supported price aggregation factors.
pub open spec fn supported_aggregation(a: u64) -> bool {
    a == 1 || a == 5 || a == 10 || a == 25 || a == 50
}

impl Heatmap {
    /// An empty heatmap with the configured cell width and retention, price
    /// aggregation 1 and the default time intervals.
    pub fn new(cfg: &AnalyticsConfig) -> (r: Self)
        ensures
            r@ == (HeatmapModel {
                buckets: Map::empty(),
                cell_ms: cfg.heatmap_cell_ms,
                retention_ms: cfg.retention_ms,
                price_aggregation: 1,
                tick_size_ticks: cfg.tick_size_ticks,
                time_intervals: seq![
                    100u64,
                    250,
                    500,
                    1_000,
                    2_000,
                    5_000,
                    10_000,
                    30_000,
                    60_000,
                ],
            }),
    {
        let r = Heatmap {
            buckets: BTreeMap::new(),
            cell_ms: cfg.heatmap_cell_ms,
            retention_ms: cfg.retention_ms,
            price_aggregation: 1,
            tick_size_ticks: cfg.tick_size_ticks,
            time_intervals: vec![100, 250, 500, 1_000, 2_000, 5_000, 10_000, 30_000, 60_000],
        };
        assert(r@.buckets =~= Map::empty());
        r
    }

    /// Set the price aggregation factor: each cell then spans that many
    /// exchange ticks; unsupported values fall back to 1.
    pub fn set_price_aggregation(&mut self, aggregation: u64)
        ensures
            final(self)@ == (HeatmapModel {
                price_aggregation: if supported_aggregation(aggregation) {
                    aggregation
                } else {
                    1
                },
                ..old(self)@
            }),
    {
        if aggregation == 1 || aggregation == 5 || aggregation == 10 || aggregation == 25
            || aggregation == 50 {
            self.price_aggregation = aggregation;
        } else {
            self.price_aggregation = 1;
        }
    }

    /// Set the available time bucket intervals.
    pub fn set_time_intervals(&mut self, intervals: Vec<u64>)
        ensures
            final(self)@ == (HeatmapModel { time_intervals: intervals@, ..old(self)@ }),
    {
        self.time_intervals = intervals;
    }

    fn grid(&self, price: u64) -> (r: u64)
        requires
            self.price_aggregation > 0,
        ensures
            r == grid_price(self.price_aggregation, self.tick_size_ticks, price),
    {
        if self.price_aggregation == 1 {
            price
        } else {
            let w = if self.tick_size_ticks == 0 {
                self.price_aggregation
            } else {
                saturating_mul_u64(self.price_aggregation, self.tick_size_ticks)
            };
            proof {
                assert(w > 0) by (nonlinear_arith)
                    requires
                        w == cell_width(self.price_aggregation, self.tick_size_ticks),
                        self.price_aggregation > 0,
                        w == if self.tick_size_ticks == 0 {
                            self.price_aggregation as int
                        } else if self.price_aggregation * self.tick_size_ticks > u64::MAX {
                            u64::MAX as int
                        } else {
                            self.price_aggregation * self.tick_size_ticks
                        },
                ;
                assert(price % w <= price) by (nonlinear_arith)
                    requires
                        w > 0,
                ;
            }
            price - price % w
        }
    }

    /// Take the cell touched at (`ts`, `price`) out of the map, stamped with
    /// its bucket and grid price; returns the bucket start and grid price too.
    fn take_cell(&mut self, ts: u64, price: u64) -> (r: (u64, u64, HeatmapCell))
        requires
            old(self).cell_ms > 0,
            old(self).price_aggregation > 0,
        ensures
            r.0 == (ts - ts % old(self)@.cell_ms) as u64,
            r.1 == grid_price(old(self)@.price_aggregation, old(self)@.tick_size_ticks, price),
            r.2 == touched(old(self)@, ts, price),
            final(self)@ == (HeatmapModel {
                buckets: with_cell(old(self)@.buckets, r.0, r.1, r.2),
                ..old(self)@
            }),
    {
        proof {
            assert(ts % self.cell_ms <= ts) by (nonlinear_arith)
                requires
                    self.cell_ms > 0,
            ;
        }
        let bs = ts - ts % self.cell_ms;
        let p = self.grid(price);
        let ghost b0 = self.buckets@;
        let mut inner = match self.buckets.remove(&bs) {
            Some(m) => m,
            None => BTreeMap::new(),
        };
        let ghost inner0 = inner@;
        assert(inner0 == inner_at(old(self)@.buckets, bs));
        let cell = match inner.get(&p) {
            Some(c) => *c,
            None => HeatmapCell::new(p),
        };
        let cell = HeatmapCell { timestamp_bucket: Some(bs), price: p, ..cell };
        inner.insert(p, cell);
        self.buckets.insert(bs, inner);
        proof {
            assert(self@.buckets =~= with_cell(old(self)@.buckets, bs, p, cell));
        }
        (bs, p, cell)
    }

    /// The cell that an event at (`ts`, `price`) would touch, as it stands.
    pub fn touched_cell(&self, ts: u64, price: u64) -> (r: HeatmapCell)
        requires
            self@.cell_ms > 0,
            self@.price_aggregation > 0,
        ensures
            r == touched(self@, ts, price),
    {
        proof {
            assert(ts % self.cell_ms <= ts) by (nonlinear_arith)
                requires
                    self.cell_ms > 0,
            ;
        }
        let bs = ts - ts % self.cell_ms;
        let p = self.grid(price);
        let cell = match self.buckets.get(&bs) {
            Some(inner) => {
                assert(inner@ == inner_at(self@.buckets, bs));
                match inner.get(&p) {
                    Some(c) => *c,
                    None => HeatmapCell::new(p),
                }
            },
            None => HeatmapCell::new(p),
        };
        HeatmapCell { timestamp_bucket: Some(bs), price: p, ..cell }
    }

    /// The cell width in milliseconds.
    pub fn cell_ms(&self) -> (r: u64)
        ensures
            r == self@.cell_ms,
    {
        self.cell_ms
    }

    /// The price aggregation factor.
    pub fn price_aggregation(&self) -> (r: u64)
        ensures
            r == self@.price_aggregation,
    {
        self.price_aggregation
    }

    /// Put back a cell taken by `take_cell`.
    fn put_cell(&mut self, bs: u64, p: u64, cell: HeatmapCell)
        ensures
            final(self)@ == (HeatmapModel {
                buckets: with_cell(old(self)@.buckets, bs, p, cell),
                ..old(self)@
            }),
    {
        let mut inner = match self.buckets.remove(&bs) {
            Some(m) => m,
            None => BTreeMap::new(),
        };
        assert(inner@ == inner_at(old(self)@.buckets, bs));
        inner.insert(p, cell);
        self.buckets.insert(bs, inner);
        proof {
            assert(self@.buckets =~= with_cell(old(self)@.buckets, bs, p, cell));
        }
    }

    /// Feed an aggressive trade: executed volume, delta, trade count and
    /// pressure of its cell.
    pub fn on_trade(&mut self, trade: &TradeEvent)
        requires
            old(self)@.cell_ms > 0,
            old(self)@.price_aggregation > 0,
            ({
                let c = touched(old(self)@, trade.trade_time, trade.price_ticks);
                let q = trade.quantity_ticks;
                &&& c.trade_count < u64::MAX
                &&& c.executed_buy_volume + q <= u64::MAX
                &&& c.executed_sell_volume + q <= u64::MAX
                &&& i128::MIN + q <= c.delta <= i128::MAX - q
                &&& i128::MIN + q <= c.pressure <= i128::MAX - q
            }),
        ensures
            final(self)@ == after_touch(
                old(self)@,
                trade.trade_time,
                trade.price_ticks,
                cell_after_trade(
                    touched(old(self)@, trade.trade_time, trade.price_ticks),
                    trade.quantity_ticks,
                    trade.aggressor,
                ),
            ),
    {
        let (bs, p, mut cell) = self.take_cell(trade.trade_time, trade.price_ticks);
        let q = trade.quantity_ticks;
        cell.trade_count = cell.trade_count + 1;
        match trade.aggressor {
            AggressorSide::Buy => {
                cell.executed_buy_volume = cell.executed_buy_volume + q;
                cell.delta = cell.delta + q as i128;
                cell.pressure = cell.pressure + q as i128;
            },
            AggressorSide::Sell => {
                cell.executed_sell_volume = cell.executed_sell_volume + q;
                cell.delta = cell.delta - q as i128;
                cell.pressure = cell.pressure - q as i128;
            },
        }
        self.put_cell(bs, p, cell);
        proof {
            lemma_with_cell_twice(old(self)@.buckets, bs, p, touched(old(self)@, trade.trade_time, trade.price_ticks), cell);
        }
    }

    /// Record large-trade volume in the trade's cell.
    pub fn on_large_trade(&mut self, trade: &TradeEvent)
        requires
            old(self)@.cell_ms > 0,
            old(self)@.price_aggregation > 0,
            touched(old(self)@, trade.trade_time, trade.price_ticks).large_trade_volume
                + trade.quantity_ticks <= u64::MAX,
        ensures
            ({
                let c = touched(old(self)@, trade.trade_time, trade.price_ticks);
                final(self)@ == after_touch(
                    old(self)@,
                    trade.trade_time,
                    trade.price_ticks,
                    HeatmapCell {
                        large_trade_volume: (c.large_trade_volume + trade.quantity_ticks) as u64,
                        ..c
                    },
                )
            }),
    {
        let (bs, p, mut cell) = self.take_cell(trade.trade_time, trade.price_ticks);
        cell.large_trade_volume = cell.large_trade_volume + trade.quantity_ticks;
        self.put_cell(bs, p, cell);
        proof {
            lemma_with_cell_twice(old(self)@.buckets, bs, p, touched(old(self)@, trade.trade_time, trade.price_ticks), cell);
        }
    }

    /// Feed a resting-liquidity change at exchange time `ts`: the side's
    /// resting quantity becomes the new quantity and the difference is added
    /// to the cell's cumulative added or removed liquidity.
    pub fn on_level_change(&mut self, change: &LevelChange, ts: u64)
        requires
            old(self)@.cell_ms > 0,
            old(self)@.price_aggregation > 0,
            touched(old(self)@, ts, change.price).liquidity_added + change.new_qty <= u64::MAX,
            touched(old(self)@, ts, change.price).liquidity_removed + (if change.side
                == BookSide::Bid {
                touched(old(self)@, ts, change.price).resting_bid_liquidity
            } else {
                touched(old(self)@, ts, change.price).resting_ask_liquidity
            }) <= u64::MAX,
        ensures
            final(self)@ == after_touch(
                old(self)@,
                ts,
                change.price,
                cell_after_level(touched(old(self)@, ts, change.price), change.side, change.new_qty),
            ),
    {
        let (bs, p, mut cell) = self.take_cell(ts, change.price);
        let new = change.new_qty;
        match change.side {
            BookSide::Bid => {
                let old = cell.resting_bid_liquidity;
                if new > old {
                    cell.liquidity_added = cell.liquidity_added + (new - old);
                    cell.resting_bid_liquidity = new;
                } else if new < old {
                    cell.liquidity_removed = cell.liquidity_removed + (old - new);
                    cell.resting_bid_liquidity = new;
                }
            },
            BookSide::Ask => {
                let old = cell.resting_ask_liquidity;
                if new > old {
                    cell.liquidity_added = cell.liquidity_added + (new - old);
                    cell.resting_ask_liquidity = new;
                } else if new < old {
                    cell.liquidity_removed = cell.liquidity_removed + (old - new);
                    cell.resting_ask_liquidity = new;
                }
            },
        }
        self.put_cell(bs, p, cell);
        proof {
            lemma_with_cell_twice(old(self)@.buckets, bs, p, touched(old(self)@, ts, change.price), cell);
        }
    }

    /// Count a sweep candidate in the cell at (`ts`, `price_ticks`).
    pub fn on_sweep(&mut self, price_ticks: u64, ts: u64)
        requires
            old(self)@.cell_ms > 0,
            old(self)@.price_aggregation > 0,
            touched(old(self)@, ts, price_ticks).sweep_count < u64::MAX,
        ensures
            ({
                let c = touched(old(self)@, ts, price_ticks);
                final(self)@ == after_touch(
                    old(self)@,
                    ts,
                    price_ticks,
                    HeatmapCell { sweep_count: (c.sweep_count + 1) as u64, ..c },
                )
            }),
    {
        let (bs, p, mut cell) = self.take_cell(ts, price_ticks);
        cell.sweep_count = cell.sweep_count + 1;
        self.put_cell(bs, p, cell);
        proof {
            lemma_with_cell_twice(old(self)@.buckets, bs, p, touched(old(self)@, ts, price_ticks), cell);
        }
    }

    /// Count an absorption candidate in the cell at (`ts`, `price_ticks`).
    pub fn on_absorption(&mut self, price_ticks: u64, ts: u64)
        requires
            old(self)@.cell_ms > 0,
            old(self)@.price_aggregation > 0,
            touched(old(self)@, ts, price_ticks).absorption_candidate_count < u64::MAX,
        ensures
            ({
                let c = touched(old(self)@, ts, price_ticks);
                final(self)@ == after_touch(
                    old(self)@,
                    ts,
                    price_ticks,
                    HeatmapCell {
                        absorption_candidate_count: (c.absorption_candidate_count + 1) as u64,
                        ..c
                    },
                )
            }),
    {
        let (bs, p, mut cell) = self.take_cell(ts, price_ticks);
        cell.absorption_candidate_count = cell.absorption_candidate_count + 1;
        self.put_cell(bs, p, cell);
        proof {
            lemma_with_cell_twice(old(self)@.buckets, bs, p, touched(old(self)@, ts, price_ticks), cell);
        }
    }

    /// Count a replenishment candidate in the cell at (`ts`, `price_ticks`).
    pub fn on_replenishment(&mut self, price_ticks: u64, ts: u64)
        requires
            old(self)@.cell_ms > 0,
            old(self)@.price_aggregation > 0,
            touched(old(self)@, ts, price_ticks).replenishment_count < u64::MAX,
        ensures
            ({
                let c = touched(old(self)@, ts, price_ticks);
                final(self)@ == after_touch(
                    old(self)@,
                    ts,
                    price_ticks,
                    HeatmapCell { replenishment_count: (c.replenishment_count + 1) as u64, ..c },
                )
            }),
    {
        let (bs, p, mut cell) = self.take_cell(ts, price_ticks);
        cell.replenishment_count = cell.replenishment_count + 1;
        self.put_cell(bs, p, cell);
        proof {
            lemma_with_cell_twice(old(self)@.buckets, bs, p, touched(old(self)@, ts, price_ticks), cell);
        }
    }

    /// Every cell as `(bucket, price, cell)`, in (bucket, price) order.
    pub fn cells(&self) -> (r: Vec<(u64, u64, HeatmapCell)>)
        ensures
            is_cell_listing(self@.buckets, r@),
    {
        let ghost m = self@.buckets;
        let ks = u64_map_keys(&self.buckets);
        let mut out: Vec<(u64, u64, HeatmapCell)> = Vec::new();
        let ghost mut pos: Map<(u64, u64), int> = Map::empty();
        let mut i: usize = 0;
        while i < ks.len()
            invariant
                m == self@.buckets,
                is_sorted_u64_keys(self.buckets@, ks@),
                i <= ks@.len(),
                forall|a: int, c: int|
                    0 <= a < c < out@.len() ==> key_lt(
                        (#[trigger] out@[a].0, out@[a].1),
                        (#[trigger] out@[c].0, out@[c].1),
                    ),
                forall|a: int|
                    0 <= a < out@.len() ==> #[trigger] m.contains_key(out@[a].0)
                        && m[out@[a].0].contains_key(out@[a].1) && m[out@[a].0][out@[a].1]
                        == out@[a].2,
                forall|a: int| 0 <= a < out@.len() && i < ks@.len() ==> #[trigger] out@[a].0 < ks@[i as int],
                forall|x: int, p: u64|
                    0 <= x < i && #[trigger] m[ks@[x]].contains_key(p) ==> pos.contains_key((ks@[x], p))
                        && 0 <= pos[(ks@[x], p)] < out@.len() && out@[pos[(ks@[x], p)]].0 == ks@[x]
                        && out@[pos[(ks@[x], p)]].1 == p,
            decreases ks@.len() - i,
        {
            let b = ks[i];
            assert(self.buckets@.contains_key(b));
            let inner = match self.buckets.get(&b) {
                Some(x) => x,
                None => vstd::pervasive::unreached(),
            };
            assert(m[b] == inner@);
            let ps = u64_map_keys(inner);
            let ghost start_len = out@.len();
            let mut j: usize = 0;
            while j < ps.len()
                invariant
                    m == self@.buckets,
                    is_sorted_u64_keys(self.buckets@, ks@),
                    is_sorted_u64_keys(inner@, ps@),
                    m[b] == inner@,
                    b == ks@[i as int],
                    i < ks@.len(),
                    j <= ps@.len(),
                    start_len <= out@.len(),
                    out@.len() - start_len == j,
                    forall|a: int| 0 <= a < start_len ==> #[trigger] out@[a].0 < b,
                    forall|a: int|
                        start_len <= a < out@.len() ==> #[trigger] out@[a].0 == b && out@[a].1
                            == ps@[a - start_len],
                    forall|a: int, c: int|
                        0 <= a < c < out@.len() ==> key_lt(
                            (#[trigger] out@[a].0, out@[a].1),
                            (#[trigger] out@[c].0, out@[c].1),
                        ),
                    forall|a: int|
                        0 <= a < out@.len() ==> #[trigger] m.contains_key(out@[a].0)
                            && m[out@[a].0].contains_key(out@[a].1) && m[out@[a].0][out@[a].1]
                            == out@[a].2,
                    forall|x: int, p: u64|
                        0 <= x < i && #[trigger] m[ks@[x]].contains_key(p) ==> pos.contains_key(
                            (ks@[x], p),
                        ) && 0 <= pos[(ks@[x], p)] < start_len && out@[pos[(ks@[x], p)]].0 == ks@[x]
                            && out@[pos[(ks@[x], p)]].1 == p,
                decreases ps@.len() - j,
            {
                let p = ps[j];
                assert(inner@.contains_key(p));
                let c = match inner.get(&p) {
                    Some(c) => *c,
                    None => vstd::pervasive::unreached(),
                };
                proof {
                    assert forall|a: int| 0 <= a < out@.len() implies key_lt(
                        (out@[a].0, out@[a].1),
                        (b, p),
                    ) by {
                        if a >= start_len {
                            assert(out@[a].1 == ps@[a - start_len]);
                        }
                    }
                }
                out.push((b, p, c));
                j = j + 1;
            }
            proof {
                let old_pos = pos;
                pos = Map::new(
                    |k: (u64, u64)| old_pos.contains_key(k) || (k.0 == b && inner@.contains_key(k.1)),
                    |k: (u64, u64)| if k.0 == b && inner@.contains_key(k.1) {
                        start_len + ps@.index_of(k.1)
                    } else {
                        old_pos[k]
                    },
                );
                assert forall|x: int, q: u64|
                    0 <= x < i + 1 && #[trigger] m[ks@[x]].contains_key(q) implies pos.contains_key(
                    (ks@[x], q),
                ) && 0 <= pos[(ks@[x], q)] < out@.len() && out@[pos[(ks@[x], q)]].0 == ks@[x]
                    && out@[pos[(ks@[x], q)]].1 == q by {
                    if x == i {
                        assert(ps@.contains(q));
                        let y = ps@.index_of(q);
                        assert(ps@[y] == q);
                        assert(out@[start_len + y].0 == b);
                        assert(out@[start_len + y].1 == ps@[y]);
                    } else {
                        assert(ks@[x] < ks@[i as int]);
                        assert(old_pos.contains_key((ks@[x], q)));
                    }
                }
                assert forall|a: int| 0 <= a < out@.len() && i + 1 < ks@.len() implies #[trigger] out@[a].0 < ks@[i + 1] by {
                    assert(ks@[i as int] < ks@[i + 1]);
                }
            }
            i = i + 1;
        }
        proof {
            assert forall|b: u64, p: u64| #[trigger] m.contains_key(b) && #[trigger] m[b].contains_key(p) implies exists|a: int|
                0 <= a < out@.len() && out@[a].0 == b && out@[a].1 == p by {
                assert(ks@.contains(b));
                let x = choose|x: int| 0 <= x < ks@.len() && ks@[x] == b;
                assert(m[ks@[x]].contains_key(p));
                let a = pos[(b, p)];
                assert(out@[a].0 == b && out@[a].1 == p);
            }
        }
        out
    }

    /// The buckets: start → grid price → cell, oldest first.
    pub fn buckets(&self) -> (r: &BTreeMap<u64, BTreeMap<u64, HeatmapCell>>)
        ensures
            r@.map_values(|m: BTreeMap<u64, HeatmapCell>| m@) == self@.buckets,
    {
        &self.buckets
    }

    /// Executed buy, sell, total volume and delta over prices `[lo, hi]` in
    /// buckets starting at or after `now_ms - window_ms`.
    pub fn range_volume(&self, lo: u64, hi: u64, now_ms: u64, window_ms: u64) -> (r: (
        u64,
        u64,
        u64,
        i128,
    ))
        requires
            forall|s: Seq<(u64, u64, HeatmapCell)>, f: CellField|
                is_cell_listing(self@.buckets, s) ==> #[trigger] prefix_sums_fit(
                    window_cells(
                        s,
                        lo,
                        hi,
                        saturating_diff(now_ms, window_ms),
                    ),
                    f,
                ),
        ensures
            exists|s: Seq<(u64, u64, HeatmapCell)>|
                is_cell_listing(self@.buckets, s) && {
                    let w = window_cells(
                        s,
                        lo,
                        hi,
                        saturating_diff(now_ms, window_ms),
                    );
                    r == (
                        sum_cells(w, CellField::ExecutedBuy) as u64,
                        sum_cells(w, CellField::ExecutedSell) as u64,
                        sum_cells(w, CellField::ExecutedTotal) as u64,
                        sum_cells(w, CellField::Delta) as i128,
                    )
                },
            (forall|b: u64|
                #[trigger] self@.buckets.contains_key(b) ==> b < saturating_diff(now_ms, window_ms))
                ==> r == (0u64, 0u64, 0u64, 0i128),
    {
        let cutoff: u64 = if now_ms >= window_ms {
            now_ms - window_ms
        } else {
            0
        };
        let all = self.cells();
        let w = filter_window(&all, lo, hi, cutoff);
        proof {
            assert(cutoff == saturating_diff(now_ms, window_ms));
            let ww = window_cells(all@, lo, hi, saturating_diff(now_ms, window_ms));
            assert(prefix_sums_fit(ww, CellField::ExecutedBuy));
            assert(prefix_sums_fit(ww, CellField::ExecutedSell));
            assert(prefix_sums_fit(ww, CellField::ExecutedTotal));
            assert(prefix_sums_fit(ww, CellField::Delta));
            assert(prefix_sums_fit(w@, CellField::ExecutedBuy));
            assert(prefix_sums_fit(w@, CellField::ExecutedSell));
            assert(prefix_sums_fit(w@, CellField::ExecutedTotal));
            assert(prefix_sums_fit(w@, CellField::Delta));
            if forall|b: u64|
                #[trigger] self@.buckets.contains_key(b) ==> b < saturating_diff(now_ms, window_ms) {
                assert forall|i: int| 0 <= i < all@.len() implies (#[trigger] all@[i]).0 < cutoff by {
                    assert(self@.buckets.contains_key(all@[i].0));
                }
                lemma_window_before_cutoff_empty(all@, lo, hi, cutoff);
            }
        }
        let buy = sum_field(&w, CellField::ExecutedBuy) as u64;
        let sell = sum_field(&w, CellField::ExecutedSell) as u64;
        let total = sum_field(&w, CellField::ExecutedTotal) as u64;
        let delta = sum_field(&w, CellField::Delta);
        (buy, sell, total, delta)
    }

    /// Drop the buckets that start before `now_ms - retention`.
    pub fn prune(&mut self, now_ms: u64)
        ensures
            final(self)@ == (HeatmapModel {
                buckets: old(self)@.buckets.restrict(
                    old(self)@.buckets.dom().filter(
                        |k: u64|
                            k >= (if now_ms >= old(self)@.retention_ms {
                                now_ms - old(self)@.retention_ms
                            } else {
                                0
                            }),
                    ),
                ),
                ..old(self)@
            }),
    {
        let cutoff: u64 = if now_ms >= self.retention_ms {
            now_ms - self.retention_ms
        } else {
            0
        };
        let ghost o = self@;
        let ks = u64_map_keys(&self.buckets);
        let mut i: usize = 0;
        while i < ks.len()
            invariant
                is_sorted_u64_keys(o.buckets, ks@),
                i <= ks@.len(),
                self@ == (HeatmapModel { buckets: self@.buckets, ..o }),
                forall|k: u64| #[trigger]
                    self@.buckets.contains_key(k) <==> o.buckets.contains_key(k) && !(k < cutoff
                        && exists|j: int| 0 <= j < i && ks@[j] == k),
                forall|k: u64| #[trigger]
                    self@.buckets.contains_key(k) ==> self@.buckets[k] == o.buckets[k],
            decreases ks@.len() - i,
        {
            let k = ks[i];
            let ghost before = self@;
            if k < cutoff {
                self.buckets.remove(&k);
                assert(self@.buckets =~= before.buckets.remove(k));
            }
            proof {
                assert(ks@[i as int] == k);
                assert forall|x: u64| #[trigger]
                    self@.buckets.contains_key(x) <==> o.buckets.contains_key(x) && !(x < cutoff
                        && exists|j: int| 0 <= j < i + 1 && ks@[j] == x) by {
                    if x == k {
                        assert(ks@[i as int] == x);
                    } else if exists|j: int| 0 <= j < i + 1 && ks@[j] == x {
                        let j = choose|j: int| 0 <= j < i + 1 && ks@[j] == x;
                        assert(j < i);
                    }
                }
            }
            i = i + 1;
        }
        proof {
            let keep = o.buckets.dom().filter(|k: u64| k >= cutoff);
            assert forall|x: u64| #[trigger] self@.buckets.contains_key(x) <==> keep.contains(x) by {
                if o.buckets.contains_key(x) && x < cutoff {
                    assert(ks@.contains(x));
                    let j = choose|j: int| 0 <= j < ks@.len() && ks@[j] == x;
                    assert(exists|j2: int| 0 <= j2 < ks@.len() && ks@[j2] == x);
                }
            }
            assert(self@.buckets =~= o.buckets.restrict(keep));
        }
    }

    /// Number of time buckets.
    pub fn bucket_count(&self) -> (r: usize)
        ensures
            r == self@.buckets.len(),
    {
        assert(self@.buckets.dom() =~= self.buckets@.dom());
        self.buckets.len()
    }

    /// Number of cells over all buckets.
    pub fn cell_count(&self) -> (r: usize)
        ensures
            exists|s: Seq<(u64, u64, HeatmapCell)>| is_cell_listing(self@.buckets, s) && r == s.len(),
    {
        let all = self.cells();
        all.len()
    }

    /// Deterministic digest of the heatmap for comparing runs.
    pub fn digest(&self) -> (r: HeatmapDigest)
        requires
            sums_fit(self@.buckets),
        ensures
            r.total_buckets == self@.buckets.len(),
            exists|s: Seq<(u64, u64, HeatmapCell)>|
                is_cell_listing(self@.buckets, s) && r == (HeatmapDigest {
                    total_buckets: r.total_buckets,
                    total_price_levels: s.len() as usize,
                    total_executed_buy: sum_cells(s, CellField::ExecutedBuy) as u64,
                    total_executed_sell: sum_cells(s, CellField::ExecutedSell) as u64,
                    total_delta: sum_cells(s, CellField::Delta) as i128,
                    total_trade_count: sum_cells(s, CellField::TradeCount) as u64,
                    total_liquidity_added: sum_cells(s, CellField::LiquidityAdded) as u64,
                    total_liquidity_removed: sum_cells(s, CellField::LiquidityRemoved) as u64,
                    total_resting_bid: sum_cells(s, CellField::RestingBid) as u64,
                    total_resting_ask: sum_cells(s, CellField::RestingAsk) as u64,
                    total_large_trade_volume: sum_cells(s, CellField::LargeTradeVolume) as u64,
                    total_replenishment_count: sum_cells(s, CellField::Replenishments) as u64,
                    total_absorption_candidate_count: sum_cells(s, CellField::Absorptions) as u64,
                    total_sweep_count: sum_cells(s, CellField::Sweeps) as u64,
                    total_pressure: sum_cells(s, CellField::Pressure) as i128,
                }),
    {
        let all = self.cells();
        proof {
            assert(self@.buckets.dom() =~= self.buckets@.dom());
            assert(prefix_sums_fit(all@, CellField::ExecutedBuy));
            assert(prefix_sums_fit(all@, CellField::ExecutedSell));
            assert(prefix_sums_fit(all@, CellField::Delta));
            assert(prefix_sums_fit(all@, CellField::TradeCount));
            assert(prefix_sums_fit(all@, CellField::LiquidityAdded));
            assert(prefix_sums_fit(all@, CellField::LiquidityRemoved));
            assert(prefix_sums_fit(all@, CellField::RestingBid));
            assert(prefix_sums_fit(all@, CellField::RestingAsk));
            assert(prefix_sums_fit(all@, CellField::LargeTradeVolume));
            assert(prefix_sums_fit(all@, CellField::Replenishments));
            assert(prefix_sums_fit(all@, CellField::Absorptions));
            assert(prefix_sums_fit(all@, CellField::Sweeps));
            assert(prefix_sums_fit(all@, CellField::Pressure));
        }
        HeatmapDigest {
            total_buckets: self.buckets.len(),
            total_price_levels: all.len(),
            total_executed_buy: sum_field(&all, CellField::ExecutedBuy) as u64,
            total_executed_sell: sum_field(&all, CellField::ExecutedSell) as u64,
            total_delta: sum_field(&all, CellField::Delta),
            total_trade_count: sum_field(&all, CellField::TradeCount) as u64,
            total_liquidity_added: sum_field(&all, CellField::LiquidityAdded) as u64,
            total_liquidity_removed: sum_field(&all, CellField::LiquidityRemoved) as u64,
            total_resting_bid: sum_field(&all, CellField::RestingBid) as u64,
            total_resting_ask: sum_field(&all, CellField::RestingAsk) as u64,
            total_large_trade_volume: sum_field(&all, CellField::LargeTradeVolume) as u64,
            total_replenishment_count: sum_field(&all, CellField::Replenishments) as u64,
            total_absorption_candidate_count: sum_field(&all, CellField::Absorptions) as u64,
            total_sweep_count: sum_field(&all, CellField::Sweeps) as u64,
            total_pressure: sum_field(&all, CellField::Pressure),
        }
    }
}

/// Replacing the same cell twice keeps only the second replacement.
proof fn lemma_with_cell_twice(
    b: Map<u64, Map<u64, HeatmapCell>>,
    bs: u64,
    p: u64,
    c1: HeatmapCell,
    c2: HeatmapCell,
)
    ensures
        with_cell(with_cell(b, bs, p, c1), bs, p, c2) =~= with_cell(b, bs, p, c2),
{
    assert(inner_at(with_cell(b, bs, p, c1), bs) == inner_at(b, bs).insert(p, c1));
    assert(inner_at(b, bs).insert(p, c1).insert(p, c2) =~= inner_at(b, bs).insert(p, c2));
}

/// A deterministic fingerprint of the heatmap for comparing runs.
#[derive(Debug, Clone, Copy, PartialEq, Eq, Structural)]
pub struct HeatmapDigest {
    pub total_buckets: usize,
    pub total_price_levels: usize,
    pub total_executed_buy: u64,
    pub total_executed_sell: u64,
    pub total_delta: i128,
    pub total_trade_count: u64,
    pub total_liquidity_added: u64,
    pub total_liquidity_removed: u64,
    pub total_resting_bid: u64,
    pub total_resting_ask: u64,
    pub total_large_trade_volume: u64,
    pub total_replenishment_count: u64,
    pub total_absorption_candidate_count: u64,
    pub total_sweep_count: u64,
    pub total_pressure: i128,
}

/// The one-line summary of a heatmap digest.
pub open spec fn heatmap_summary_text(d: HeatmapDigest) -> Seq<char> {
    "buckets="@ + decimal_text(d.total_buckets as nat) + " price_levels="@ + decimal_text(
        d.total_price_levels as nat,
    ) + " buy="@ + decimal_text(d.total_executed_buy as nat) + " sell="@ + decimal_text(
        d.total_executed_sell as nat,
    ) + " delta="@ + signed_decimal_text(d.total_delta as int) + " trades="@ + decimal_text(
        d.total_trade_count as nat,
    ) + " liq_added="@ + decimal_text(d.total_liquidity_added as nat) + " liq_removed="@
        + decimal_text(d.total_liquidity_removed as nat) + " resting_bid="@ + decimal_text(
        d.total_resting_bid as nat,
    ) + " resting_ask="@ + decimal_text(d.total_resting_ask as nat) + " large_vol="@
        + decimal_text(d.total_large_trade_volume as nat) + " replenish="@ + decimal_text(
        d.total_replenishment_count as nat,
    ) + " absorb="@ + decimal_text(d.total_absorption_candidate_count as nat) + " sweeps="@
        + decimal_text(d.total_sweep_count as nat) + " pressure="@ + signed_decimal_text(
        d.total_pressure as int,
    )
}

impl HeatmapDigest {
    /// One-line summary of every total, in decimal.
    pub fn summarize(&self) -> (r: String)
        ensures
            r@ == heatmap_summary_text(*self),
    {
        let mut s = String::new();
        push_str(&mut s, "buckets=");
        push_decimal(&mut s, self.total_buckets as u128);
        push_str(&mut s, " price_levels=");
        push_decimal(&mut s, self.total_price_levels as u128);
        push_str(&mut s, " buy=");
        push_decimal(&mut s, self.total_executed_buy as u128);
        push_str(&mut s, " sell=");
        push_decimal(&mut s, self.total_executed_sell as u128);
        push_str(&mut s, " delta=");
        push_signed(&mut s, self.total_delta);
        push_str(&mut s, " trades=");
        push_decimal(&mut s, self.total_trade_count as u128);
        push_str(&mut s, " liq_added=");
        push_decimal(&mut s, self.total_liquidity_added as u128);
        push_str(&mut s, " liq_removed=");
        push_decimal(&mut s, self.total_liquidity_removed as u128);
        push_str(&mut s, " resting_bid=");
        push_decimal(&mut s, self.total_resting_bid as u128);
        push_str(&mut s, " resting_ask=");
        push_decimal(&mut s, self.total_resting_ask as u128);
        push_str(&mut s, " large_vol=");
        push_decimal(&mut s, self.total_large_trade_volume as u128);
        push_str(&mut s, " replenish=");
        push_decimal(&mut s, self.total_replenishment_count as u128);
        push_str(&mut s, " absorb=");
        push_decimal(&mut s, self.total_absorption_candidate_count as u128);
        push_str(&mut s, " sweeps=");
        push_decimal(&mut s, self.total_sweep_count as u128);
        push_str(&mut s, " pressure=");
        push_signed(&mut s, self.total_pressure);
        s
    }
}

/// A cell as sent to a renderer.
#[derive(Debug, Clone, Copy, PartialEq, Eq, Structural)]
pub struct HeatmapCellSnapshot {
    pub price_tick: u64,
    pub resting_bid_liquidity: u64,
    pub resting_ask_liquidity: u64,
    pub liquidity_added: u64,
    pub liquidity_removed: u64,
    pub executed_buy_volume: u64,
    pub executed_sell_volume: u64,
    pub delta: i128,
    pub trade_count: u64,
    pub large_trade_volume: u64,
    pub replenishment_count: u64,
    pub absorption_candidate_count: u64,
    pub sweep_count: u64,
    pub pressure: i128,
}

/// The snapshot of a cell at `price`.
pub open spec fn snapshot_of(c: HeatmapCell, price: u64) -> HeatmapCellSnapshot {
    HeatmapCellSnapshot {
        price_tick: price,
        resting_bid_liquidity: c.resting_bid_liquidity,
        resting_ask_liquidity: c.resting_ask_liquidity,
        liquidity_added: c.liquidity_added,
        liquidity_removed: c.liquidity_removed,
        executed_buy_volume: c.executed_buy_volume,
        executed_sell_volume: c.executed_sell_volume,
        delta: c.delta,
        trade_count: c.trade_count,
        large_trade_volume: c.large_trade_volume,
        replenishment_count: c.replenishment_count,
        absorption_candidate_count: c.absorption_candidate_count,
        sweep_count: c.sweep_count,
        pressure: c.pressure,
    }
}

impl Default for HeatmapCellSnapshot {
    fn default() -> (r: Self)
        ensures
            r == snapshot_of(new_cell(0), 0),
    {
        HeatmapCellSnapshot::from_cell(&HeatmapCell::new(0), 0)
    }
}

impl HeatmapCellSnapshot {
    /// The snapshot of `cell` at `price`.
    pub fn from_cell(cell: &HeatmapCell, price: u64) -> (r: Self)
        ensures
            r == snapshot_of(*cell, price),
    {
        HeatmapCellSnapshot {
            price_tick: price,
            resting_bid_liquidity: cell.resting_bid_liquidity,
            resting_ask_liquidity: cell.resting_ask_liquidity,
            liquidity_added: cell.liquidity_added,
            liquidity_removed: cell.liquidity_removed,
            executed_buy_volume: cell.executed_buy_volume,
            executed_sell_volume: cell.executed_sell_volume,
            delta: cell.delta,
            trade_count: cell.trade_count,
            large_trade_volume: cell.large_trade_volume,
            replenishment_count: cell.replenishment_count,
            absorption_candidate_count: cell.absorption_candidate_count,
            sweep_count: cell.sweep_count,
            pressure: cell.pressure,
        }
    }
}

/// Summary totals of a frame.
#[derive(Debug, Clone, Copy, PartialEq, Eq, Structural)]
pub struct HeatmapSummary {
    pub total_price_levels: usize,
    pub total_buckets: usize,
    pub total_executed_buy: u64,
    pub total_executed_sell: u64,
    pub total_delta: i128,
    pub total_trade_count: u64,
    pub total_liquidity_added: u64,
    pub total_liquidity_removed: u64,
    pub total_large_trade_volume: u64,
    pub total_replenishment_count: u64,
    pub total_absorption_candidate_count: u64,
    pub total_sweep_count: u64,
}

impl Default for HeatmapSummary {
    fn default() -> (r: Self)
        ensures
            r == (HeatmapSummary {
                total_price_levels: 0,
                total_buckets: 0,
                total_executed_buy: 0,
                total_executed_sell: 0,
                total_delta: 0,
                total_trade_count: 0,
                total_liquidity_added: 0,
                total_liquidity_removed: 0,
                total_large_trade_volume: 0,
                total_replenishment_count: 0,
                total_absorption_candidate_count: 0,
                total_sweep_count: 0,
            }),
    {
        HeatmapSummary {
            total_price_levels: 0,
            total_buckets: 0,
            total_executed_buy: 0,
            total_executed_sell: 0,
            total_delta: 0,
            total_trade_count: 0,
            total_liquidity_added: 0,
            total_liquidity_removed: 0,
            total_large_trade_volume: 0,
            total_replenishment_count: 0,
            total_absorption_candidate_count: 0,
            total_sweep_count: 0,
        }
    }
}

/// A renderer-friendly snapshot of the heatmap.
#[derive(Debug, PartialEq)]
pub struct HeatmapFrame {
    /// Snapshot time (ms).
    pub timestamp: u64,
    /// Visible price range (grid ticks).
    pub visible_price_range: (u64, u64),
    /// Time range covered (first and last bucket start).
    pub time_range: (u64, u64),
    /// The visible cells, by (bucket, price).
    pub cells: Vec<HeatmapCellSnapshot>,
    pub summary: HeatmapSummary,
}

/// The smallest price in the listing, starting from `init`.
pub open spec fn min_price_from(s: Seq<(u64, u64, HeatmapCell)>, init: u64) -> u64
    decreases s.len(),
{
    if s.len() == 0 {
        init
    } else {
        let m = min_price_from(s.drop_last(), init);
        if s.last().1 < m {
            s.last().1
        } else {
            m
        }
    }
}

/// The largest price in the listing, starting from `init`.
pub open spec fn max_price_from(s: Seq<(u64, u64, HeatmapCell)>, init: u64) -> u64
    decreases s.len(),
{
    if s.len() == 0 {
        init
    } else {
        let m = max_price_from(s.drop_last(), init);
        if s.last().1 > m {
            s.last().1
        } else {
            m
        }
    }
}

/// The snapshots of listed cells.
pub open spec fn snapshots_of(w: Seq<(u64, u64, HeatmapCell)>) -> Seq<HeatmapCellSnapshot> {
    w.map_values(|t: (u64, u64, HeatmapCell)| snapshot_of(t.2, t.1))
}

/// The frame of a listing `s` of a heatmap `m` with `n_buckets` buckets,
/// first and last bucket starts `first`/`last` (when any), at `timestamp`,
/// restricted to prices `[lo, hi]`.
pub open spec fn frame_of(
    s: Seq<(u64, u64, HeatmapCell)>,
    n_buckets: nat,
    first_last: Option<(u64, u64)>,
    retention_ms: u64,
    timestamp: u64,
    lo: u64,
    hi: u64,
) -> (
    (u64, u64),
    (u64, u64),
    Seq<HeatmapCellSnapshot>,
    HeatmapSummary,
) {
    let w = window_cells(s, lo, hi, 0);
    (
        if w.len() == 0 {
            (lo, hi)
        } else {
            (min_price_from(w, hi), max_price_from(w, lo))
        },
        match first_last {
            Some(fl) => fl,
            None => (saturating_diff(timestamp, retention_ms), timestamp),
        },
        snapshots_of(w),
        HeatmapSummary {
            total_price_levels: w.len() as usize,
            total_buckets: n_buckets as usize,
            total_executed_buy: sum_cells(w, CellField::ExecutedBuy) as u64,
            total_executed_sell: sum_cells(w, CellField::ExecutedSell) as u64,
            total_delta: sum_cells(w, CellField::Delta) as i128,
            total_trade_count: sum_cells(w, CellField::TradeCount) as u64,
            total_liquidity_added: sum_cells(w, CellField::LiquidityAdded) as u64,
            total_liquidity_removed: sum_cells(w, CellField::LiquidityRemoved) as u64,
            total_large_trade_volume: sum_cells(w, CellField::LargeTradeVolume) as u64,
            total_replenishment_count: sum_cells(w, CellField::Replenishments) as u64,
            total_absorption_candidate_count: sum_cells(w, CellField::Absorptions) as u64,
            total_sweep_count: sum_cells(w, CellField::Sweeps) as u64,
        },
    )
}

impl Clone for HeatmapFrame {
    fn clone(&self) -> (r: Self)
        ensures
            r.timestamp == self.timestamp,
            r.visible_price_range == self.visible_price_range,
            r.time_range == self.time_range,
            r.cells@ == self.cells@,
            r.summary == self.summary,
    {
        let mut cells: Vec<HeatmapCellSnapshot> = Vec::new();
        let mut i: usize = 0;
        while i < self.cells.len()
            invariant
                i <= self.cells@.len(),
                cells@ == self.cells@.take(i as int),
            decreases self.cells@.len() - i,
        {
            cells.push(self.cells[i]);
            proof {
                assert(cells@ =~= self.cells@.take(i + 1));
            }
            i = i + 1;
        }
        proof {
            assert(self.cells@.take(self.cells@.len() as int) =~= self.cells@);
        }
        HeatmapFrame {
            timestamp: self.timestamp,
            visible_price_range: self.visible_price_range,
            time_range: self.time_range,
            cells,
            summary: self.summary,
        }
    }
}

impl HeatmapFrame {
    /// The frame of the heatmap at `timestamp` over visible prices
    /// `[visible_lo, visible_hi]`.
    ///
    /// The visible range narrows to the prices present (unchanged when no
    /// cell is visible); the time range spans the first and last bucket
    /// (the retention window before `timestamp` when there is none).
    pub fn from_heatmap(heatmap: &Heatmap, timestamp: u64, visible_lo: u64, visible_hi: u64) -> (r:
        Self)
        requires
            forall|s: Seq<(u64, u64, HeatmapCell)>, f: CellField|
                is_cell_listing(heatmap@.buckets, s) ==> #[trigger] prefix_sums_fit(
                    window_cells(s, visible_lo, visible_hi, 0),
                    f,
                ),
        ensures
            r.timestamp == timestamp,
            exists|s: Seq<(u64, u64, HeatmapCell)>, ks: Seq<u64>|
                is_cell_listing(heatmap@.buckets, s) && is_sorted_u64_keys(heatmap@.buckets, ks)
                    && frame_of(
                    s,
                    heatmap@.buckets.len(),
                    if ks.len() == 0 {
                        None
                    } else {
                        Some((ks[0], ks.last()))
                    },
                    heatmap@.retention_ms,
                    timestamp,
                    visible_lo,
                    visible_hi,
                ) == (r.visible_price_range, r.time_range, r.cells@, r.summary),
    {
        let all = heatmap.cells();
        let w = filter_window(&all, visible_lo, visible_hi, 0);
        let ghost ww = window_cells(all@, visible_lo, visible_hi, 0);
        proof {
            assert(prefix_sums_fit(ww, CellField::ExecutedBuy));
            assert(prefix_sums_fit(ww, CellField::ExecutedSell));
            assert(prefix_sums_fit(ww, CellField::Delta));
            assert(prefix_sums_fit(ww, CellField::TradeCount));
            assert(prefix_sums_fit(ww, CellField::LiquidityAdded));
            assert(prefix_sums_fit(ww, CellField::LiquidityRemoved));
            assert(prefix_sums_fit(ww, CellField::LargeTradeVolume));
            assert(prefix_sums_fit(ww, CellField::Replenishments));
            assert(prefix_sums_fit(ww, CellField::Absorptions));
            assert(prefix_sums_fit(ww, CellField::Sweeps));
        }
        let mut cells: Vec<HeatmapCellSnapshot> = Vec::new();
        let mut min_price = visible_hi;
        let mut max_price = visible_lo;
        let mut i: usize = 0;
        while i < w.len()
            invariant
                i <= w@.len(),
                cells@ == snapshots_of(w@.take(i as int)),
                min_price == min_price_from(w@.take(i as int), visible_hi),
                max_price == max_price_from(w@.take(i as int), visible_lo),
            decreases w@.len() - i,
        {
            proof {
                assert(w@.take(i + 1).drop_last() =~= w@.take(i as int));
                assert(w@.take(i + 1).last() == w@[i as int]);
            }
            let t = w[i];
            cells.push(HeatmapCellSnapshot::from_cell(&t.2, t.1));
            if t.1 < min_price {
                min_price = t.1;
            }
            if t.1 > max_price {
                max_price = t.1;
            }
            proof {
                assert(cells@ =~= snapshots_of(w@.take(i + 1)));
            }
            i = i + 1;
        }
        proof {
            assert(w@.take(w@.len() as int) =~= w@);
        }
        let range = if w.len() == 0 {
            (visible_lo, visible_hi)
        } else {
            (min_price, max_price)
        };
        let ks = u64_map_keys(&heatmap.buckets);
        proof {
            assert(heatmap@.buckets.dom() =~= heatmap.buckets@.dom());
            assert forall|k: u64| #[trigger] heatmap@.buckets.contains_key(k) <==> heatmap.buckets@.contains_key(k) by {}
        }
        let time_range = if ks.len() == 0 {
            let start = if timestamp >= heatmap.retention_ms {
                timestamp - heatmap.retention_ms
            } else {
                0
            };
            (start, timestamp)
        } else {
            (ks[0], ks[ks.len() - 1])
        };
        let summary = HeatmapSummary {
            total_price_levels: w.len(),
            total_buckets: heatmap.bucket_count(),
            total_executed_buy: sum_field(&w, CellField::ExecutedBuy) as u64,
            total_executed_sell: sum_field(&w, CellField::ExecutedSell) as u64,
            total_delta: sum_field(&w, CellField::Delta),
            total_trade_count: sum_field(&w, CellField::TradeCount) as u64,
            total_liquidity_added: sum_field(&w, CellField::LiquidityAdded) as u64,
            total_liquidity_removed: sum_field(&w, CellField::LiquidityRemoved) as u64,
            total_large_trade_volume: sum_field(&w, CellField::LargeTradeVolume) as u64,
            total_replenishment_count: sum_field(&w, CellField::Replenishments) as u64,
            total_absorption_candidate_count: sum_field(&w, CellField::Absorptions) as u64,
            total_sweep_count: sum_field(&w, CellField::Sweeps) as u64,
        };
        proof {
            assert(is_sorted_u64_keys(heatmap@.buckets, ks@));
        }
        HeatmapFrame { timestamp, visible_price_range: range, time_range, cells, summary }
    }
}

/// Change between two frame summaries.
#[derive(Debug, Clone, Copy, PartialEq, Eq, Structural)]
pub struct HeatmapSummaryDelta {
    pub total_executed_buy: u64,
    pub total_executed_sell: u64,
    pub total_delta: i128,
    pub total_trade_count: u64,
    pub total_liquidity_added: u64,
    pub total_liquidity_removed: u64,
    pub total_large_trade_volume: u64,
    pub total_replenishment_count: u64,
    pub total_absorption_candidate_count: u64,
    pub total_sweep_count: u64,
}

/// Incremental update between two frames.
#[derive(Debug)]
pub struct HeatmapDelta {
    /// Cells present in both frames whose data changed: (price, new cell).
    pub changed: Vec<(u64, HeatmapCellSnapshot)>,
    /// Cells only in the current frame.
    pub new: Vec<HeatmapCellSnapshot>,
    /// Prices only in the previous frame.
    pub removed: Vec<u64>,
    pub summary_delta: HeatmapSummaryDelta,
}

/// The cells of a frame keyed by price; a later cell at the same price
/// replaces an earlier one.
pub open spec fn price_map(cells: Seq<HeatmapCellSnapshot>) -> Map<u64, HeatmapCellSnapshot>
    decreases cells.len(),
{
    if cells.len() == 0 {
        Map::empty()
    } else {
        price_map(cells.drop_last()).insert(cells.last().price_tick, cells.last())
    }
}

fn build_price_map(cells: &Vec<HeatmapCellSnapshot>) -> (r: BTreeMap<u64, HeatmapCellSnapshot>)
    ensures
        r@ == price_map(cells@),
{
    let mut m: BTreeMap<u64, HeatmapCellSnapshot> = BTreeMap::new();
    let mut i: usize = 0;
    while i < cells.len()
        invariant
            i <= cells@.len(),
            m@ == price_map(cells@.take(i as int)),
        decreases cells@.len() - i,
    {
        proof {
            assert(cells@.take(i + 1).drop_last() =~= cells@.take(i as int));
            assert(cells@.take(i + 1).last() == cells@[i as int]);
        }
        let c = cells[i];
        m.insert(c.price_tick, c);
        i = i + 1;
    }
    proof {
        assert(cells@.take(cells@.len() as int) =~= cells@);
    }
    m
}

/// Prices of `cm` that also occur in `pm` with different data.
pub open spec fn changed_prices(ck: Seq<u64>, pm: Map<u64, HeatmapCellSnapshot>, cm: Map<u64, HeatmapCellSnapshot>) -> Seq<u64> {
    ck.filter(|p: u64| pm.contains_key(p) && pm[p] != cm[p])
}

/// Prices of `cm` absent from `pm`.
pub open spec fn new_prices(ck: Seq<u64>, pm: Map<u64, HeatmapCellSnapshot>) -> Seq<u64> {
    ck.filter(|p: u64| !pm.contains_key(p))
}

impl HeatmapDelta {
    /// The delta from `previous` to `current`: changed, new and removed
    /// prices in increasing order, and the summary change (counters
    /// saturating at zero, the delta total wrapping).
    pub fn compute(previous: &HeatmapFrame, current: &HeatmapFrame) -> (r: Self)
        ensures
            exists|pk: Seq<u64>, ck: Seq<u64>|
                #![trigger is_sorted_u64_keys(price_map(previous.cells@), pk), is_sorted_u64_keys(price_map(current.cells@), ck)]
                {
                    let pm = price_map(previous.cells@);
                    let cm = price_map(current.cells@);
                    &&& is_sorted_u64_keys(pm, pk)
                    &&& is_sorted_u64_keys(cm, ck)
                    &&& r.changed@ == changed_prices(ck, pm, cm).map_values(|p: u64| (p, cm[p]))
                    &&& r.new@ == new_prices(ck, pm).map_values(|p: u64| cm[p])
                    &&& r.removed@ == new_prices(pk, cm)
                },
            ({
                let ps = previous.summary;
                let cs = current.summary;
                r.summary_delta == HeatmapSummaryDelta {
                    total_executed_buy: cs.total_executed_buy.saturating_sub(ps.total_executed_buy),
                    total_executed_sell: cs.total_executed_sell.saturating_sub(
                        ps.total_executed_sell,
                    ),
                    total_delta: cs.total_delta.wrapping_sub(ps.total_delta),
                    total_trade_count: cs.total_trade_count.saturating_sub(ps.total_trade_count),
                    total_liquidity_added: cs.total_liquidity_added.saturating_sub(
                        ps.total_liquidity_added,
                    ),
                    total_liquidity_removed: cs.total_liquidity_removed.saturating_sub(
                        ps.total_liquidity_removed,
                    ),
                    total_large_trade_volume: cs.total_large_trade_volume.saturating_sub(
                        ps.total_large_trade_volume,
                    ),
                    total_replenishment_count: cs.total_replenishment_count.saturating_sub(
                        ps.total_replenishment_count,
                    ),
                    total_absorption_candidate_count: cs.total_absorption_candidate_count.saturating_sub(
                        ps.total_absorption_candidate_count,
                    ),
                    total_sweep_count: cs.total_sweep_count.saturating_sub(ps.total_sweep_count),
                }
            }),
    {
        let prev_map = build_price_map(&previous.cells);
        let curr_map = build_price_map(&current.cells);
        let ghost pm = prev_map@;
        let ghost cm = curr_map@;
        let ck = u64_map_keys(&curr_map);
        let pk = u64_map_keys(&prev_map);
        let mut changed: Vec<(u64, HeatmapCellSnapshot)> = Vec::new();
        let mut new_cells: Vec<HeatmapCellSnapshot> = Vec::new();
        let mut i: usize = 0;
        while i < ck.len()
            invariant
                pm == prev_map@,
                cm == curr_map@,
                is_sorted_u64_keys(cm, ck@),
                i <= ck@.len(),
                changed@ == changed_prices(ck@.take(i as int), pm, cm).map_values(
                    |p: u64| (p, cm[p]),
                ),
                new_cells@ == new_prices(ck@.take(i as int), pm).map_values(|p: u64| cm[p]),
            decreases ck@.len() - i,
        {
            let p = ck[i];
            proof {
                assert(ck@.take(i + 1).drop_last() =~= ck@.take(i as int));
                assert(ck@.take(i + 1).last() == p);
                reveal(Seq::filter);
                assert(cm.contains_key(p));
            }
            let curr = match curr_map.get(&p) {
                Some(c) => *c,
                None => vstd::pervasive::unreached(),
            };
            match prev_map.get(&p) {
                Some(prev) => {
                    if *prev != curr {
                        changed.push((p, curr));
                    }
                },
                None => {
                    new_cells.push(curr);
                },
            }
            proof {
                assert(changed@ =~= changed_prices(ck@.take(i + 1), pm, cm).map_values(
                    |p: u64| (p, cm[p]),
                ));
                assert(new_cells@ =~= new_prices(ck@.take(i + 1), pm).map_values(|p: u64| cm[p]));
            }
            i = i + 1;
        }
        let mut removed: Vec<u64> = Vec::new();
        let mut j: usize = 0;
        while j < pk.len()
            invariant
                pm == prev_map@,
                cm == curr_map@,
                is_sorted_u64_keys(pm, pk@),
                j <= pk@.len(),
                removed@ == new_prices(pk@.take(j as int), cm),
            decreases pk@.len() - j,
        {
            let p = pk[j];
            proof {
                assert(pk@.take(j + 1).drop_last() =~= pk@.take(j as int));
                assert(pk@.take(j + 1).last() == p);
                reveal(Seq::filter);
            }
            if !curr_map.contains_key(&p) {
                removed.push(p);
            }
            j = j + 1;
        }
        proof {
            assert(ck@.take(ck@.len() as int) =~= ck@);
            assert(pk@.take(pk@.len() as int) =~= pk@);
        }
        let ps = &previous.summary;
        let cs = &current.summary;
        let summary_delta = HeatmapSummaryDelta {
            total_executed_buy: cs.total_executed_buy.saturating_sub(ps.total_executed_buy),
            total_executed_sell: cs.total_executed_sell.saturating_sub(ps.total_executed_sell),
            total_delta: cs.total_delta.wrapping_sub(ps.total_delta),
            total_trade_count: cs.total_trade_count.saturating_sub(ps.total_trade_count),
            total_liquidity_added: cs.total_liquidity_added.saturating_sub(
                ps.total_liquidity_added,
            ),
            total_liquidity_removed: cs.total_liquidity_removed.saturating_sub(
                ps.total_liquidity_removed,
            ),
            total_large_trade_volume: cs.total_large_trade_volume.saturating_sub(
                ps.total_large_trade_volume,
            ),
            total_replenishment_count: cs.total_replenishment_count.saturating_sub(
                ps.total_replenishment_count,
            ),
            total_absorption_candidate_count: cs.total_absorption_candidate_count.saturating_sub(
                ps.total_absorption_candidate_count,
            ),
            total_sweep_count: cs.total_sweep_count.saturating_sub(ps.total_sweep_count),
        };
        HeatmapDelta { changed, new: new_cells, removed, summary_delta }
    }
}

} // verus!