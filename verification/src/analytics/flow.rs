//! Trade-flow analytics: delta, cumulative volume delta (CVD), volume at
//! price and time-bucketed volume.
//!
//! Positive delta means buyers were aggressive: `delta = buy - sell` over the
//! aggressor side of each trade. CVD is the session's running delta and is
//! never reset. All quantities are integer ticks.
use std::collections::{BTreeMap, VecDeque};
use vstd::prelude::*;

use crate::analytics::snapshot::AnalyticsFlowDigest;
use crate::ordered_map::{is_sorted_keys, is_sorted_u64_keys, pair_map_keys, u64_map_keys};
use crate::stable_sort::{lemma_stable_sort, sort_stable, sorted_by_key, stable_sort_by_key, SortKey};
use crate::trades::trade::{AggressorSide, TradeEvent};

verus! {

broadcast use vstd::std_specs::btree::group_btree_axioms, vstd::laws_cmp::group_laws_cmp,
    vstd::std_specs::vecdeque::group_vec_dequeue_axioms;

/// Session flow counters.
#[derive(Debug, Clone, Copy, PartialEq, Eq, Structural)]
pub struct FlowTotals {
    pub trade_count: u64,
    pub buy_volume: u64,
    pub sell_volume: u64,
    pub cvd: i128,
}

impl FlowTotals {
    /// Buy plus sell volume.
    pub fn trade_volume(&self) -> (r: u64)
        requires
            self.buy_volume + self.sell_volume <= u64::MAX,
        ensures
            r == self.buy_volume + self.sell_volume,
    {
        self.buy_volume + self.sell_volume
    }

    /// Buy minus sell volume.
    pub fn delta(&self) -> (r: i128)
        ensures
            r == self.buy_volume - self.sell_volume,
    {
        self.buy_volume as i128 - self.sell_volume as i128
    }
}

impl Default for FlowTotals {
    fn default() -> (r: Self)
        ensures
            r == (FlowTotals { trade_count: 0, buy_volume: 0, sell_volume: 0, cvd: 0 }),
    {
        FlowTotals { trade_count: 0, buy_volume: 0, sell_volume: 0, cvd: 0 }
    }
}

/// Flow at one price.
#[derive(Debug, Clone, Copy, PartialEq, Eq, Structural)]
pub struct VolumeAtPrice {
    pub price: u64,
    pub buy_volume: u64,
    pub sell_volume: u64,
    pub total_volume: u64,
    pub delta: i128,
    pub trade_count: u64,
    pub large_trade_count: u64,
}

/// A time bucket of one aggregation interval.
#[derive(Debug, Clone, Copy, PartialEq, Eq, Structural)]
pub struct TimeBucket {
    pub interval_ms: u64,
    pub start_ms: u64,
    pub end_ms: u64,
    pub buy_volume: u64,
    pub sell_volume: u64,
    pub total_volume: u64,
    pub delta: i128,
    pub trade_count: u64,
    /// Session CVD when the bucket closed.
    pub cvd_end: i128,
}

impl SortKey for TimeBucket {
    /// Buckets order by interval, then by start.
    open spec fn sort_key(&self) -> int {
        self.interval_ms * 0x1_0000_0000_0000_0000 + self.start_ms
    }

    fn key(&self) -> (r: u128) {
        assert(self.interval_ms * 0x1_0000_0000_0000_0000 + self.start_ms <= u128::MAX)
            by (nonlinear_arith)
            requires
                self.interval_ms <= u64::MAX,
                self.start_ms <= u64::MAX,
        ;
        (self.interval_ms as u128) * 0x1_0000_0000_0000_0000u128 + (self.start_ms as u128)
    }
}

/// A fresh, empty bucket.
pub open spec fn empty_bucket(interval: u64, start: u64) -> TimeBucket {
    TimeBucket {
        interval_ms: interval,
        start_ms: start,
        end_ms: (start + interval) as u64,
        buy_volume: 0,
        sell_volume: 0,
        total_volume: 0,
        delta: 0,
        trade_count: 0,
        cvd_end: 0,
    }
}

/// Signed quantity of a trade: positive for aggressive buys.
pub open spec fn signed_qty(side: AggressorSide, qty: u64) -> int {
    match side {
        AggressorSide::Buy => qty as int,
        AggressorSide::Sell => -(qty as int),
    }
}

/// A bucket after one more trade.
pub open spec fn bucket_add(b: TimeBucket, qty: u64, side: AggressorSide) -> TimeBucket {
    TimeBucket {
        total_volume: (b.total_volume + qty) as u64,
        trade_count: (b.trade_count + 1) as u64,
        buy_volume: if side == AggressorSide::Buy {
            (b.buy_volume + qty) as u64
        } else {
            b.buy_volume
        },
        sell_volume: if side == AggressorSide::Sell {
            (b.sell_volume + qty) as u64
        } else {
            b.sell_volume
        },
        delta: (b.delta + signed_qty(side, qty)) as i128,
        ..b
    }
}

/// The volume-at-price entry after one more trade.
pub open spec fn vap_add(v: VolumeAtPrice, qty: u64, side: AggressorSide) -> VolumeAtPrice {
    VolumeAtPrice {
        total_volume: (v.total_volume + qty) as u64,
        trade_count: (v.trade_count + 1) as u64,
        buy_volume: if side == AggressorSide::Buy {
            (v.buy_volume + qty) as u64
        } else {
            v.buy_volume
        },
        sell_volume: if side == AggressorSide::Sell {
            (v.sell_volume + qty) as u64
        } else {
            v.sell_volume
        },
        delta: (v.delta + signed_qty(side, qty)) as i128,
        ..v
    }
}

pub open spec fn empty_vap(price: u64) -> VolumeAtPrice {
    VolumeAtPrice {
        price,
        buy_volume: 0,
        sell_volume: 0,
        total_volume: 0,
        delta: 0,
        trade_count: 0,
        large_trade_count: 0,
    }
}

/// Abstract state of a [`TradeFlow`].
pub struct FlowModel {
    pub totals: FlowTotals,
    pub volume_by_price: Map<u64, VolumeAtPrice>,
    /// Open buckets keyed by (interval, start).
    pub open: Map<(u64, u64), TimeBucket>,
    /// Completed buckets, oldest first.
    pub completed: Seq<TimeBucket>,
    pub intervals: Seq<u64>,
    pub retention_ms: u64,
}

/// Bucket bookkeeping: open buckets, completed buckets and the buckets
/// closed by the current trade.
pub struct BucketState {
    pub open: Map<(u64, u64), TimeBucket>,
    pub completed: Seq<TimeBucket>,
    pub closed: Seq<TimeBucket>,
}

/// `s` is the latest start of an open bucket of `interval` before `start`.
pub open spec fn is_prev_open(open: Map<(u64, u64), TimeBucket>, interval: u64, start: u64, s: u64) -> bool {
    &&& open.contains_key((interval, s))
    &&& s < start
    &&& forall|t: u64| #[trigger] open.contains_key((interval, t)) && t < start ==> t <= s
}

pub open spec fn has_prev_open(open: Map<(u64, u64), TimeBucket>, interval: u64, start: u64) -> bool {
    exists|s: u64| #[trigger] open.contains_key((interval, s)) && s < start
}

/// Start of the bucket of `interval` holding time `ts`.
pub open spec fn bucket_start(ts: u64, interval: u64) -> u64 {
    (ts - ts % interval) as u64
}

/// Feed one trade into the buckets of one interval.
///
/// When the trade opens a new bucket, the latest earlier open bucket of the
/// interval is closed: its end becomes the new start and it records the
/// session CVD `cvd` at the moment it closed, before the trade is counted.
pub open spec fn interval_step(
    st: BucketState,
    interval: u64,
    ts: u64,
    qty: u64,
    side: AggressorSide,
    cvd: i128,
) -> BucketState {
    let start = bucket_start(ts, interval);
    let key = (interval, start);
    let st1 = if st.open.contains_key(key) {
        st
    } else if has_prev_open(st.open, interval, start) {
        let ps = choose|s: u64| is_prev_open(st.open, interval, start, s);
        let b = TimeBucket { end_ms: start, cvd_end: cvd, ..st.open[(interval, ps)] };
        BucketState {
            open: st.open.remove((interval, ps)).insert(key, empty_bucket(interval, start)),
            completed: st.completed.push(b),
            closed: st.closed.push(b),
        }
    } else {
        BucketState {
            open: st.open.insert(key, empty_bucket(interval, start)),
            completed: st.completed,
            closed: st.closed,
        }
    };
    BucketState { open: st1.open.insert(key, bucket_add(st1.open[key], qty, side)), ..st1 }
}

/// Feed one trade into the buckets of every interval, in order.
pub open spec fn buckets_after(
    st: BucketState,
    intervals: Seq<u64>,
    ts: u64,
    qty: u64,
    side: AggressorSide,
    cvd: i128,
) -> BucketState
    decreases intervals.len(),
{
    if intervals.len() == 0 {
        st
    } else {
        interval_step(
            buckets_after(st, intervals.drop_last(), ts, qty, side, cvd),
            intervals.last(),
            ts,
            qty,
            side,
            cvd,
        )
    }
}

/// The invariants of the flow state: CVD equals buy minus sell volume, and
/// every entry and open bucket is internally consistent.
pub open spec fn flow_wf(m: FlowModel) -> bool {
    &&& m.totals.cvd == m.totals.buy_volume - m.totals.sell_volume
    &&& forall|p: u64| #[trigger]
        m.volume_by_price.contains_key(p) ==> {
            let v = m.volume_by_price[p];
            &&& v.price == p
            &&& v.total_volume == v.buy_volume + v.sell_volume
            &&& v.delta == v.buy_volume - v.sell_volume
        }
    &&& forall|k: (u64, u64)| #[trigger]
        m.open.contains_key(k) ==> {
            let b = m.open[k];
            &&& b.interval_ms == k.0 && b.start_ms == k.1
            &&& b.total_volume == b.buy_volume + b.sell_volume
            &&& b.delta == b.buy_volume - b.sell_volume
        }
    &&& forall|i: int| 0 <= i < m.intervals.len() ==> #[trigger] m.intervals[i] > 0
}

/// There is room to add a trade of `qty` at `price` and time `ts` without any
/// counter overflowing.
pub open spec fn flow_room(m: FlowModel, price: u64, qty: u64, ts: u64) -> bool {
    let n = m.intervals.len();
    &&& m.totals.trade_count < u64::MAX
    &&& m.totals.buy_volume + m.totals.sell_volume + qty <= u64::MAX
    &&& m.volume_by_price.contains_key(price) ==> m.volume_by_price[price].total_volume + qty
        <= u64::MAX && m.volume_by_price[price].trade_count < u64::MAX
    &&& n * qty <= u64::MAX
    &&& n < u64::MAX
    &&& forall|k: (u64, u64)| #[trigger]
        m.open.contains_key(k) ==> m.open[k].total_volume + n * qty <= u64::MAX
            && m.open[k].trade_count + n <= u64::MAX
    &&& forall|i: int| 0 <= i < n ==> ts + #[trigger] m.intervals[i] <= u64::MAX
}

/// The flow after one trade: the session totals move by the trade, its
/// price's entry takes it, and each interval's bucket takes it in turn.
pub open spec fn flow_after(o: FlowModel, t: TradeEvent) -> FlowModel {
    let qty = t.quantity_ticks;
    let side = t.aggressor;
    let p = t.price_ticks;
    let v = if o.volume_by_price.contains_key(p) {
        o.volume_by_price[p]
    } else {
        empty_vap(p)
    };
    let st = buckets_after(
        BucketState { open: o.open, completed: o.completed, closed: Seq::empty() },
        o.intervals,
        t.trade_time,
        qty,
        side,
        o.totals.cvd,
    );
    FlowModel {
        totals: FlowTotals {
            trade_count: (o.totals.trade_count + 1) as u64,
            buy_volume: if side == AggressorSide::Buy {
                (o.totals.buy_volume + qty) as u64
            } else {
                o.totals.buy_volume
            },
            sell_volume: if side == AggressorSide::Sell {
                (o.totals.sell_volume + qty) as u64
            } else {
                o.totals.sell_volume
            },
            cvd: (o.totals.cvd + signed_qty(side, qty)) as i128,
        },
        volume_by_price: o.volume_by_price.insert(p, vap_add(v, qty, side)),
        open: st.open,
        completed: st.completed,
        ..o
    }
}

/// The flow after the trades `ts`, in order.
pub open spec fn flow_after_trades(m: FlowModel, ts: Seq<TradeEvent>) -> FlowModel
    decreases ts.len(),
{
    if ts.len() == 0 {
        m
    } else {
        flow_after(flow_after_trades(m, ts.drop_last()), ts.last())
    }
}

/// Every trade of `ts` finds room for its counters when it comes.
pub open spec fn trades_fit(m: FlowModel, ts: Seq<TradeEvent>) -> bool {
    forall|i: int|
        0 <= i < ts.len() ==> flow_room(
            #[trigger] flow_after_trades(m, ts.take(i)),
            ts[i].price_ticks,
            ts[i].quantity_ticks,
            ts[i].trade_time,
        )
}

/// A fresh flow over `intervals` with the given retention.
pub open spec fn fresh_flow(intervals: Seq<u64>, retention_ms: u64) -> FlowModel {
    FlowModel {
        totals: FlowTotals { trade_count: 0, buy_volume: 0, sell_volume: 0, cvd: 0 },
        volume_by_price: Map::empty(),
        open: Map::empty(),
        completed: Seq::empty(),
        intervals,
        retention_ms,
    }
}

/// An open bucket at key `k` that is consistent and has room for `m` more
/// trades of `qty`.
pub open spec fn bucket_room(b: TimeBucket, k: (u64, u64), m: int, qty: u64) -> bool {
    &&& b.interval_ms == k.0 && b.start_ms == k.1
    &&& b.total_volume == b.buy_volume + b.sell_volume
    &&& b.delta == b.buy_volume - b.sell_volume
    &&& b.total_volume + m * qty <= u64::MAX
    &&& b.trade_count + m <= u64::MAX
}

proof fn lemma_interval_step_room(
    st: BucketState,
    m: int,
    interval: u64,
    ts: u64,
    qty: u64,
    side: AggressorSide,
    cvd: i128,
)
    requires
        interval > 0,
        m >= 1,
        m * qty <= u64::MAX,
        m <= u64::MAX,
        forall|k: (u64, u64)| #[trigger] st.open.contains_key(k) ==> bucket_room(st.open[k], k, m, qty),
    ensures
        forall|k: (u64, u64)| #[trigger]
            interval_step(st, interval, ts, qty, side, cvd).open.contains_key(k) ==> bucket_room(
                interval_step(st, interval, ts, qty, side, cvd).open[k],
                k,
                m - 1,
                qty,
            ),
{
    assert(ts % interval <= ts) by (nonlinear_arith)
        requires
            interval > 0,
    ;
    assert((m - 1) * qty + qty == m * qty) by (nonlinear_arith);
    assert((m - 1) * qty >= 0) by (nonlinear_arith)
        requires
            m >= 1,
    ;
    let start = bucket_start(ts, interval);
    let key = (interval, start);
    let st1 = if st.open.contains_key(key) {
        st
    } else if has_prev_open(st.open, interval, start) {
        let ps = choose|s: u64| is_prev_open(st.open, interval, start, s);
        let b = TimeBucket { end_ms: start, cvd_end: cvd, ..st.open[(interval, ps)] };
        BucketState {
            open: st.open.remove((interval, ps)).insert(key, empty_bucket(interval, start)),
            completed: st.completed.push(b),
            closed: st.closed.push(b),
        }
    } else {
        BucketState {
            open: st.open.insert(key, empty_bucket(interval, start)),
            completed: st.completed,
            closed: st.closed,
        }
    };
    assert(interval_step(st, interval, ts, qty, side, cvd) == BucketState {
        open: st1.open.insert(key, bucket_add(st1.open[key], qty, side)),
        ..st1
    });
    assert forall|k: (u64, u64)| #[trigger] st1.open.contains_key(k) implies bucket_room(
        st1.open[k],
        k,
        m,
        qty,
    ) by {
        if k != key {
            assert(st.open.contains_key(k));
            assert(st1.open[k] == st.open[k]);
        }
    }
    let b0 = st1.open[key];
    assert(st1.open.contains_key(key));
    assert(bucket_room(b0, key, m, qty));
    let b1 = bucket_add(b0, qty, side);
    assert(b1.total_volume + (m - 1) * qty <= u64::MAX);
    assert(bucket_room(b1, key, m - 1, qty));
    let out = st1.open.insert(key, b1);
    assert forall|k: (u64, u64)| #[trigger] out.contains_key(k) implies bucket_room(
        out[k],
        k,
        m - 1,
        qty,
    ) by {
        if k != key {
            assert(st1.open.contains_key(k));
            assert(bucket_room(st1.open[k], k, m, qty));
        }
    }
}

proof fn lemma_buckets_after_room(
    st: BucketState,
    intervals: Seq<u64>,
    n: int,
    ts: u64,
    qty: u64,
    side: AggressorSide,
    cvd: i128,
)
    requires
        intervals.len() <= n,
        n * qty <= u64::MAX,
        n <= u64::MAX,
        forall|i: int| 0 <= i < intervals.len() ==> #[trigger] intervals[i] > 0,
        forall|k: (u64, u64)| #[trigger] st.open.contains_key(k) ==> bucket_room(st.open[k], k, n, qty),
    ensures
        forall|k: (u64, u64)| #[trigger]
            buckets_after(st, intervals, ts, qty, side, cvd).open.contains_key(k) ==> bucket_room(
                buckets_after(st, intervals, ts, qty, side, cvd).open[k],
                k,
                n - intervals.len(),
                qty,
            ),
    decreases intervals.len(),
{
    if intervals.len() > 0 {
        let pre = intervals.drop_last();
        assert forall|i: int| 0 <= i < pre.len() implies #[trigger] pre[i] > 0 by {
            assert(pre[i] == intervals[i]);
        }
        lemma_buckets_after_room(st, pre, n, ts, qty, side, cvd);
        let m = n - pre.len();
        assert(m * qty <= n * qty) by (nonlinear_arith)
            requires
                0 <= m <= n,
        ;
        assert(intervals.last() > 0);
        lemma_interval_step_room(
            buckets_after(st, pre, ts, qty, side, cvd),
            m,
            intervals.last(),
            ts,
            qty,
            side,
            cvd,
        );
    } else {
        assert forall|k: (u64, u64)| #[trigger] st.open.contains_key(k) implies bucket_room(
            st.open[k],
            k,
            n - intervals.len(),
            qty,
        ) by {
            assert(bucket_room(st.open[k], k, n, qty));
        }
    }
}

/// A trade that finds room keeps the flow's invariants: CVD stays buy minus
/// sell volume, and every price entry and open bucket stays consistent.
pub proof fn lemma_flow_step_keeps_invariants(o: FlowModel, t: TradeEvent)
    requires
        flow_wf(o),
        flow_room(o, t.price_ticks, t.quantity_ticks, t.trade_time),
    ensures
        flow_wf(flow_after(o, t)),
{
    let n = o.intervals.len() as int;
    let qty = t.quantity_ticks;
    assert forall|k: (u64, u64)| #[trigger] o.open.contains_key(k) implies bucket_room(
        o.open[k],
        k,
        n,
        qty,
    ) by {}
    let st = BucketState { open: o.open, completed: o.completed, closed: Seq::empty() };
    lemma_buckets_after_room(st, o.intervals, n, t.trade_time, qty, t.aggressor, o.totals.cvd);
    let f = flow_after(o, t);
    let p = t.price_ticks;
    let v = if o.volume_by_price.contains_key(p) {
        o.volume_by_price[p]
    } else {
        empty_vap(p)
    };
    assert(v.total_volume == v.buy_volume + v.sell_volume && v.delta == v.buy_volume
        - v.sell_volume && v.price == p);
    assert forall|q: u64| #[trigger] f.volume_by_price.contains_key(q) implies ({
        let w = f.volume_by_price[q];
        &&& w.price == q
        &&& w.total_volume == w.buy_volume + w.sell_volume
        &&& w.delta == w.buy_volume - w.sell_volume
    }) by {
        if q != p {
            assert(o.volume_by_price.contains_key(q));
        }
    }
    assert forall|k: (u64, u64)| #[trigger] f.open.contains_key(k) implies ({
        let b = f.open[k];
        &&& b.interval_ms == k.0 && b.start_ms == k.1
        &&& b.total_volume == b.buy_volume + b.sell_volume
        &&& b.delta == b.buy_volume - b.sell_volume
    }) by {
        assert(bucket_room(f.open[k], k, n - n, qty));
    }
}

/// CVD is buy minus sell volume in every flow that trades reach from a fresh
/// one, as long as each trade finds room for its counters (and intervals are
/// positive): the trades keep every invariant of the flow.
pub proof fn lemma_flow_trades_keep_invariants(
    intervals: Seq<u64>,
    retention_ms: u64,
    ts: Seq<TradeEvent>,
)
    requires
        forall|i: int| 0 <= i < intervals.len() ==> #[trigger] intervals[i] > 0,
        trades_fit(fresh_flow(intervals, retention_ms), ts),
    ensures
        flow_wf(flow_after_trades(fresh_flow(intervals, retention_ms), ts)),
        flow_after_trades(fresh_flow(intervals, retention_ms), ts).totals.cvd == flow_after_trades(
            fresh_flow(intervals, retention_ms),
            ts,
        ).totals.buy_volume - flow_after_trades(fresh_flow(intervals, retention_ms), ts).totals.sell_volume,
    decreases ts.len(),
{
    let m0 = fresh_flow(intervals, retention_ms);
    if ts.len() > 0 {
        let pre = ts.drop_last();
        assert forall|i: int| 0 <= i < pre.len() implies flow_room(
            #[trigger] flow_after_trades(m0, pre.take(i)),
            pre[i].price_ticks,
            pre[i].quantity_ticks,
            pre[i].trade_time,
        ) by {
            assert(pre.take(i) =~= ts.take(i));
            assert(pre[i] == ts[i]);
            assert(flow_room(
                flow_after_trades(m0, ts.take(i)),
                ts[i].price_ticks,
                ts[i].quantity_ticks,
                ts[i].trade_time,
            ));
        }
        lemma_flow_trades_keep_invariants(intervals, retention_ms, pre);
        let last = ts.len() - 1;
        assert(ts.take(last) =~= pre);
        assert(flow_room(
            flow_after_trades(m0, ts.take(last)),
            ts[last].price_ticks,
            ts[last].quantity_ticks,
            ts[last].trade_time,
        ));
        lemma_flow_step_keeps_invariants(flow_after_trades(m0, pre), ts.last());
    }
}

/// The flow after a large trade at `price` is counted in the volume
/// profile (only if the price has traded).
pub open spec fn flow_after_large(o: FlowModel, price: u64) -> FlowModel {
    FlowModel {
        volume_by_price: if o.volume_by_price.contains_key(price) {
            o.volume_by_price.insert(
                price,
                VolumeAtPrice {
                    large_trade_count: (o.volume_by_price[price].large_trade_count + 1) as u64,
                    ..o.volume_by_price[price]
                },
            )
        } else {
            o.volume_by_price
        },
        ..o
    }
}

/// Trade-flow state.
pub struct TradeFlow {
    totals: FlowTotals,
    volume_by_price: BTreeMap<u64, VolumeAtPrice>,
    bucket_totals: BTreeMap<(u64, u64), TimeBucket>,
    completed: VecDeque<TimeBucket>,
    intervals: Vec<u64>,
    retention_ms: u64,
}

impl View for TradeFlow {
    type V = FlowModel;

    closed spec fn view(&self) -> FlowModel {
        FlowModel {
            totals: self.totals,
            volume_by_price: self.volume_by_price@,
            open: self.bucket_totals@,
            completed: self.completed@,
            intervals: self.intervals@,
            retention_ms: self.retention_ms,
        }
    }
}

/// Add a trade to a bucket.
fn add_to_bucket(b: &mut TimeBucket, qty: u64, side: AggressorSide)
    requires
        old(b).total_volume + qty <= u64::MAX,
        old(b).trade_count < u64::MAX,
        old(b).total_volume == old(b).buy_volume + old(b).sell_volume,
        old(b).delta == old(b).buy_volume - old(b).sell_volume,
    ensures
        *final(b) == bucket_add(*old(b), qty, side),
{
    b.total_volume = b.total_volume + qty;
    b.trade_count = b.trade_count + 1;
    match side {
        AggressorSide::Buy => {
            b.buy_volume = b.buy_volume + qty;
            b.delta = b.delta + qty as i128;
        },
        AggressorSide::Sell => {
            b.sell_volume = b.sell_volume + qty;
            b.delta = b.delta - qty as i128;
        },
    }
}

impl TradeFlow {
    /// A flow engine aggregating over the given bucket intervals (ms).
    pub fn new(intervals: Vec<u64>, retention_ms: u64) -> (r: Self)
        ensures
            (forall|i: int| 0 <= i < intervals@.len() ==> #[trigger] intervals@[i] > 0) ==> flow_wf(
                r@,
            ),
            r@ == (FlowModel {
                totals: FlowTotals { trade_count: 0, buy_volume: 0, sell_volume: 0, cvd: 0 },
                volume_by_price: Map::empty(),
                open: Map::empty(),
                completed: Seq::empty(),
                intervals: intervals@,
                retention_ms,
            }),
    {
        TradeFlow {
            totals: FlowTotals::default(),
            volume_by_price: BTreeMap::new(),
            bucket_totals: BTreeMap::new(),
            completed: VecDeque::new(),
            intervals,
            retention_ms,
        }
    }

    pub fn totals(&self) -> (r: &FlowTotals)
        ensures
            *r == self@.totals,
    {
        &self.totals
    }

    /// Whether a trade of `qty` at `price` and time `ts` fits every counter
    /// it would raise.
    pub fn has_room(&self, price: u64, qty: u64, ts: u64) -> (r: bool)
        ensures
            r == flow_room(self@, price, qty, ts),
    {
        let n = self.intervals.len();
        if self.totals.trade_count == u64::MAX {
            return false;
        }
        if self.totals.buy_volume as u128 + self.totals.sell_volume as u128 + qty as u128
            > u64::MAX as u128 {
            return false;
        }
        match self.volume_by_price.get(&price) {
            Some(v) => {
                if v.total_volume as u128 + qty as u128 > u64::MAX as u128 || v.trade_count
                    == u64::MAX {
                    return false;
                }
            },
            None => {},
        }
        proof {
            assert(n as u128 * qty as u128 <= u128::MAX) by (nonlinear_arith)
                requires
                    n <= u64::MAX,
                    qty <= u64::MAX,
            ;
        }
        let nq: u128 = n as u128 * qty as u128;
        if nq > u64::MAX as u128 || n as u128 >= u64::MAX as u128 {
            return false;
        }
        let keys = pair_map_keys(&self.bucket_totals);
        let mut i: usize = 0;
        while i < keys.len()
            invariant
                is_sorted_keys(self@.open, keys@),
                i <= keys@.len(),
                n == self@.intervals.len(),
                nq == n * qty,
                nq <= u64::MAX,
                n < u64::MAX,
                forall|j: int|
                    0 <= j < i ==> self@.open[#[trigger] keys@[j]].total_volume + n * qty
                        <= u64::MAX && self@.open[keys@[j]].trade_count + n <= u64::MAX,
            decreases keys@.len() - i,
        {
            let k = keys[i];
            let b = match self.bucket_totals.get(&k) {
                Some(b) => *b,
                None => {
                    assert(false);
                    return false;
                },
            };
            if b.total_volume as u128 + nq > u64::MAX as u128 || b.trade_count as u128 + n as u128
                > u64::MAX as u128 {
                return false;
            }
            i = i + 1;
        }
        proof {
            assert forall|k: (u64, u64)| #[trigger] self@.open.contains_key(k) implies self@.open[k].total_volume
                + n * qty <= u64::MAX && self@.open[k].trade_count + n <= u64::MAX by {
                assert(keys@.contains(k));
                let j = choose|j: int| 0 <= j < keys@.len() && keys@[j] == k;
                assert(self@.open[keys@[j]].total_volume + n * qty <= u64::MAX);
            }
        }
        let mut i: usize = 0;
        while i < n
            invariant
                n == self@.intervals.len(),
                i <= n,
                forall|j: int| 0 <= j < i ==> ts + #[trigger] self@.intervals[j] <= u64::MAX,
            decreases n - i,
        {
            if ts as u128 + self.intervals[i] as u128 > u64::MAX as u128 {
                return false;
            }
            i = i + 1;
        }
        true
    }

    /// The latest open bucket of `interval` starting before `start`.
    fn prev_open_start(&self, interval: u64, start: u64) -> (r: Option<u64>)
        ensures
            match r {
                Some(s) => is_prev_open(self@.open, interval, start, s),
                None => !has_prev_open(self@.open, interval, start),
            },
    {
        let keys = pair_map_keys(&self.bucket_totals);
        let mut best: Option<u64> = None;
        let mut i: usize = 0;
        while i < keys.len()
            invariant
                is_sorted_keys(self@.open, keys@),
                i <= keys@.len(),
                match best {
                    Some(s) => self@.open.contains_key((interval, s)) && s < start && forall|
                        j: int,
                    |
                        0 <= j < i && (#[trigger] keys@[j]).0 == interval && keys@[j].1 < start
                            ==> keys@[j].1 <= s,
                    None => forall|j: int|
                        0 <= j < i ==> !((#[trigger] keys@[j]).0 == interval && keys@[j].1
                            < start),
                },
            decreases keys@.len() - i,
        {
            let k = keys[i];
            if k.0 == interval && k.1 < start {
                match best {
                    Some(s) => {
                        if k.1 > s {
                            best = Some(k.1);
                        }
                    },
                    None => {
                        best = Some(k.1);
                    },
                }
            }
            i = i + 1;
        }
        proof {
            match best {
                Some(s) => {
                    assert forall|t: u64| #[trigger]
                        self@.open.contains_key((interval, t)) && t < start implies t <= s by {
                        assert(keys@.contains((interval, t)));
                        let j = choose|j: int| 0 <= j < keys@.len() && keys@[j] == (interval, t);
                        assert(keys@[j].0 == interval);
                    }
                },
                None => {
                    if has_prev_open(self@.open, interval, start) {
                        let t = choose|t: u64| #[trigger]
                            self@.open.contains_key((interval, t)) && t < start;
                        assert(keys@.contains((interval, t)));
                        let j = choose|j: int| 0 <= j < keys@.len() && keys@[j] == (interval, t);
                        assert(keys@[j].0 == interval);
                    }
                },
            }
        }
        best
    }

    /// Process an aggressive trade; returns the buckets it closed (at most one
    /// per interval, in interval order).
    pub fn on_trade(&mut self, trade: &TradeEvent) -> (r: Vec<TimeBucket>)
        requires
            flow_wf(old(self)@),
            flow_room(old(self)@, trade.price_ticks, trade.quantity_ticks, trade.trade_time),
        ensures
            flow_wf(final(self)@),
            final(self)@ == flow_after(old(self)@, *trade),
            ({
                let o = old(self)@;
                let f = final(self)@;
                let qty = trade.quantity_ticks;
                let side = trade.aggressor;
                let p = trade.price_ticks;
                let totals = FlowTotals {
                    trade_count: (o.totals.trade_count + 1) as u64,
                    buy_volume: if side == AggressorSide::Buy {
                        (o.totals.buy_volume + qty) as u64
                    } else {
                        o.totals.buy_volume
                    },
                    sell_volume: if side == AggressorSide::Sell {
                        (o.totals.sell_volume + qty) as u64
                    } else {
                        o.totals.sell_volume
                    },
                    cvd: (o.totals.cvd + signed_qty(side, qty)) as i128,
                };
                let v = if o.volume_by_price.contains_key(p) {
                    o.volume_by_price[p]
                } else {
                    empty_vap(p)
                };
                let st = buckets_after(
                    BucketState { open: o.open, completed: o.completed, closed: Seq::empty() },
                    o.intervals,
                    trade.trade_time,
                    qty,
                    side,
                    o.totals.cvd,
                );
                &&& f.totals == totals
                &&& f.volume_by_price == o.volume_by_price.insert(p, vap_add(v, qty, side))
                &&& f.open == st.open
                &&& f.completed == st.completed
                &&& r@ == st.closed
                &&& f.intervals == o.intervals
                &&& f.retention_ms == o.retention_ms
            }),
    {
        let ghost o = self@;
        let ts = trade.trade_time;
        let qty = trade.quantity_ticks;
        let side = trade.aggressor;
        let cvd = self.totals.cvd;
        self.totals.trade_count = self.totals.trade_count + 1;
        match side {
            AggressorSide::Buy => {
                self.totals.buy_volume = self.totals.buy_volume + qty;
                self.totals.cvd = self.totals.cvd + qty as i128;
            },
            AggressorSide::Sell => {
                self.totals.sell_volume = self.totals.sell_volume + qty;
                self.totals.cvd = self.totals.cvd - qty as i128;
            },
        }
        let price = trade.price_ticks;
        let mut entry = match self.volume_by_price.get(&price) {
            Some(v) => *v,
            None => VolumeAtPrice {
                price,
                buy_volume: 0,
                sell_volume: 0,
                total_volume: 0,
                delta: 0,
                trade_count: 0,
                large_trade_count: 0,
            },
        };
        entry.total_volume = entry.total_volume + qty;
        entry.trade_count = entry.trade_count + 1;
        match side {
            AggressorSide::Buy => {
                entry.buy_volume = entry.buy_volume + qty;
                entry.delta = entry.delta + qty as i128;
            },
            AggressorSide::Sell => {
                entry.sell_volume = entry.sell_volume + qty;
                entry.delta = entry.delta - qty as i128;
            },
        }
        self.volume_by_price.insert(price, entry);
        let ghost t1 = self.totals;
        proof {
            let v0 = if o.volume_by_price.contains_key(price) {
                o.volume_by_price[price]
            } else {
                empty_vap(price)
            };
            assert(v0.total_volume == v0.buy_volume + v0.sell_volume);
            assert(v0.delta == v0.buy_volume - v0.sell_volume);
            assert(v0.price == price);
        }
        let ghost n = o.intervals.len();
        let mut closed: Vec<TimeBucket> = Vec::new();
        let mut idx: usize = 0;
        while idx < self.intervals.len()
            invariant
                self@.intervals == o.intervals,
                o.totals.cvd == cvd,
                idx <= n,
                n == o.intervals.len(),
                flow_wf(o),
                flow_room(o, price, qty, ts),
                ({
                    let st = buckets_after(
                        BucketState { open: o.open, completed: o.completed, closed: Seq::empty() },
                        o.intervals.take(idx as int),
                        ts,
                        qty,
                        side,
                        cvd,
                    );
                    &&& self@.open == st.open
                    &&& self@.completed == st.completed
                    &&& closed@ == st.closed
                }),
                forall|k: (u64, u64)| #[trigger]
                    self@.open.contains_key(k) ==> {
                        let b = self@.open[k];
                        &&& b.interval_ms == k.0 && b.start_ms == k.1
                        &&& b.total_volume == b.buy_volume + b.sell_volume
                        &&& b.delta == b.buy_volume - b.sell_volume
                        &&& b.total_volume + (n - idx) * qty <= u64::MAX
                        &&& b.trade_count + (n - idx) <= u64::MAX
                    },
                self.totals == t1,
                t1.cvd == t1.buy_volume - t1.sell_volume,
                self.volume_by_price@ == o.volume_by_price.insert(
                    price,
                    vap_add(
                        if o.volume_by_price.contains_key(price) {
                            o.volume_by_price[price]
                        } else {
                            empty_vap(price)
                        },
                        qty,
                        side,
                    ),
                ),
                self.retention_ms == o.retention_ms,
            decreases n - idx,
        {
            let interval = self.intervals[idx];
            proof {
                assert(o.intervals.take(idx + 1).drop_last() =~= o.intervals.take(idx as int));
                assert(o.intervals.take(idx + 1).last() == interval);
                assert(interval > 0);
                assert(ts + interval <= u64::MAX);
                assert((n - idx) * qty == (n - idx - 1) * qty + qty) by (nonlinear_arith);
                assert((n - idx - 1) * qty >= 0) by (nonlinear_arith)
                    requires
                        n - idx - 1 >= 0,
                ;
                assert(qty <= n * qty) by (nonlinear_arith)
                    requires
                        n >= 1,
                ;
                assert((n - idx) * qty <= n * qty) by (nonlinear_arith)
                    requires
                        0 <= idx <= n,
                ;
                assert(ts % interval <= ts) by (nonlinear_arith)
                    requires
                        interval > 0,
                ;
            }
            let start = ts - (ts % interval);
            let key = (interval, start);
            let ghost before = self@;
            let present = self.bucket_totals.contains_key(&key);
            if !present {
                match self.prev_open_start(interval, start) {
                    Some(prev_start) => {
                        let old_b = match self.bucket_totals.remove(&(interval, prev_start)) {
                            Some(b) => b,
                            None => empty_time_bucket(interval, prev_start),
                        };
                        let fin = TimeBucket { end_ms: start, cvd_end: cvd, ..old_b };
                        self.completed.push_back(fin);
                        closed.push(fin);
                        proof {
                            let ps = choose|s: u64| is_prev_open(before.open, interval, start, s);
                            assert(ps == prev_start) by {
                                assert(is_prev_open(before.open, interval, start, prev_start));
                            }
                        }
                    },
                    None => {},
                }
                self.bucket_totals.insert(key, empty_time_bucket(interval, start));
            }
            let ghost mid = self@;
            assert(mid.open.contains_key(key));
            assert(present ==> mid.open[key] == before.open[key]);
            assert(!present ==> mid.open[key] == empty_bucket(interval, start));
            assert(forall|k: (u64, u64)| #[trigger] mid.open.contains_key(k) && k != key ==> before.open.contains_key(k) && mid.open[k] == before.open[k]);
            let mut b = match self.bucket_totals.remove(&key) {
                Some(b) => b,
                None => empty_time_bucket(interval, start),
            };
            add_to_bucket(&mut b, qty, side);
            self.bucket_totals.insert(key, b);
            proof {
                let ghost st_prev = buckets_after(
                    BucketState { open: o.open, completed: o.completed, closed: Seq::empty() },
                    o.intervals.take(idx as int),
                    ts,
                    qty,
                    side,
                    cvd,
                );
                assert(self@.open =~= interval_step(st_prev, interval, ts, qty, side, cvd).open);
                assert(self@.completed =~= interval_step(st_prev, interval, ts, qty, side, cvd).completed);
                assert(closed@ =~= interval_step(st_prev, interval, ts, qty, side, cvd).closed);
                assert forall|k: (u64, u64)| #[trigger] self@.open.contains_key(k) implies ({
                    let b = self@.open[k];
                    &&& b.interval_ms == k.0 && b.start_ms == k.1
                    &&& b.total_volume == b.buy_volume + b.sell_volume
                    &&& b.delta == b.buy_volume - b.sell_volume
                    &&& b.total_volume + (n - idx - 1) * qty <= u64::MAX
                    &&& b.trade_count + (n - idx - 1) <= u64::MAX
                }) by {
                    if k != key {
                        assert(mid.open.contains_key(k));
                        assert(before.open.contains_key(k));
                        assert(self@.open[k] == before.open[k]);
                    } else {
                        assert(self@.open[k] == bucket_add(mid.open[key], qty, side));
                    }
                }
            }
            idx = idx + 1;
        }
        proof {
            assert(o.intervals.take(n as int) =~= o.intervals);
        }
        closed
    }

    /// Count a large trade at `price` in the volume profile, if the price
    /// has traded.
    pub fn record_large_trade(&mut self, price: u64)
        requires
            old(self)@.volume_by_price.contains_key(price) ==> old(self)@.volume_by_price[price].large_trade_count
                < u64::MAX,
        ensures
            final(self)@ == flow_after_large(old(self)@, price),
            flow_wf(old(self)@) ==> flow_wf(final(self)@),
            final(self)@ == (FlowModel {
                volume_by_price: if old(self)@.volume_by_price.contains_key(price) {
                    old(self)@.volume_by_price.insert(
                        price,
                        VolumeAtPrice {
                            large_trade_count: (old(self)@.volume_by_price[price].large_trade_count
                                + 1) as u64,
                            ..old(self)@.volume_by_price[price]
                        },
                    )
                } else {
                    old(self)@.volume_by_price
                },
                ..old(self)@
            }),
    {
        let entry = match self.volume_by_price.get(&price) {
            Some(v) => *v,
            None => return ,
        };
        let updated = VolumeAtPrice { large_trade_count: entry.large_trade_count + 1, ..entry };
        self.volume_by_price.insert(price, updated);
    }

    /// The volume profile for prices in `[lo, hi]`, by increasing price.
    pub fn volume_between(&self, lo: u64, hi: u64) -> (r: Vec<VolumeAtPrice>)
        ensures
            exists|ks: Seq<u64>|
                is_sorted_u64_keys(self@.volume_by_price, ks) && r@ == ks.filter(
                    |k: u64| lo <= k <= hi,
                ).map_values(|k: u64| self@.volume_by_price[k]),
    {
        let keys = u64_map_keys(&self.volume_by_price);
        let ghost m = self@.volume_by_price;
        let mut out: Vec<VolumeAtPrice> = Vec::new();
        let mut i: usize = 0;
        while i < keys.len()
            invariant
                is_sorted_u64_keys(m, keys@),
                m == self@.volume_by_price,
                i <= keys@.len(),
                out@ == keys@.take(i as int).filter(|k: u64| lo <= k <= hi).map_values(
                    |k: u64| m[k],
                ),
            decreases keys@.len() - i,
        {
            let k = keys[i];
            assert(m.contains_key(k));
            proof {
                assert(keys@.take(i + 1).drop_last() =~= keys@.take(i as int));
                assert(keys@.take(i + 1).last() == k);
                reveal(Seq::filter);
            }
            if lo <= k && k <= hi {
                match self.volume_by_price.get(&k) {
                    Some(v) => {
                        out.push(*v);
                    },
                    None => {},
                }
            }
            proof {
                let f = keys@.take(i + 1).filter(|k: u64| lo <= k <= hi);
                assert(out@ =~= f.map_values(|k: u64| m[k]));
            }
            i = i + 1;
        }
        proof {
            assert(keys@.take(keys@.len() as int) =~= keys@);
        }
        out
    }

    pub fn volume_at(&self, price: u64) -> (r: Option<&VolumeAtPrice>)
        ensures
            match r {
                Some(v) => self@.volume_by_price.contains_key(price) && *v
                    == self@.volume_by_price[price],
                None => !self@.volume_by_price.contains_key(price),
            },
    {
        self.volume_by_price.get(&price)
    }

    pub fn volume_by_price(&self) -> (r: &BTreeMap<u64, VolumeAtPrice>)
        ensures
            r@ == self@.volume_by_price,
    {
        &self.volume_by_price
    }

    /// Completed buckets of one interval, oldest first.
    pub fn completed_buckets(&self, interval_ms: u64) -> (r: Vec<TimeBucket>)
        ensures
            r@ == self@.completed.filter(|b: TimeBucket| b.interval_ms == interval_ms),
    {
        let mut out: Vec<TimeBucket> = Vec::new();
        let mut i: usize = 0;
        while i < self.completed.len()
            invariant
                i <= self@.completed.len(),
                out@ == self@.completed.take(i as int).filter(
                    |b: TimeBucket| b.interval_ms == interval_ms,
                ),
            decreases self@.completed.len() - i,
        {
            let b = self.completed[i];
            proof {
                assert(self@.completed.take(i + 1).drop_last() =~= self@.completed.take(i as int));
                reveal(Seq::filter);
                assert(self@.completed.take(i + 1).last() == b);
            }
            if b.interval_ms == interval_ms {
                out.push(b);
            }
            i = i + 1;
        }
        proof {
            assert(self@.completed.take(self@.completed.len() as int) =~= self@.completed);
        }
        out
    }

    /// Take every completed bucket, ordered by interval then start (stable).
    pub fn take_completed(&mut self) -> (r: Vec<TimeBucket>)
        ensures
            r@ == stable_sort_by_key(old(self)@.completed),
            sorted_by_key(r@),
            final(self)@ == (FlowModel { completed: Seq::empty(), ..old(self)@ }),
            flow_wf(old(self)@) ==> flow_wf(final(self)@),
    {
        let ghost o = self@;
        let mut drained: Vec<TimeBucket> = Vec::new();
        while self.completed.len() > 0
            invariant
                o.completed == drained@ + self@.completed,
                self@ == (FlowModel { completed: self@.completed, ..o }),
            decreases self@.completed.len(),
        {
            let ghost before = self@.completed;
            match self.completed.pop_front() {
                Some(b) => {
                    drained.push(b);
                    assert(o.completed =~= drained@ + self@.completed);
                },
                None => {},
            }
        }
        assert(drained@ =~= o.completed);
        assert(self@.completed =~= Seq::<TimeBucket>::empty());
        proof {
            lemma_stable_sort(drained@);
        }
        sort_stable(drained)
    }

    /// Drop every completed bucket that ended before `now_ms - retention`,
    /// keeping the order of the others.
    pub fn prune(&mut self, now_ms: u64)
        ensures
            flow_wf(old(self)@) ==> flow_wf(final(self)@),
            ({
                let o = old(self)@;
                let cutoff = if now_ms >= o.retention_ms {
                    now_ms - o.retention_ms
                } else {
                    0
                };
                final(self)@ == FlowModel {
                    completed: o.completed.filter(ends_at_or_after(cutoff as u64)),
                    ..o
                }
            }),
    {
        let cutoff: u64 = if now_ms >= self.retention_ms {
            now_ms - self.retention_ms
        } else {
            0
        };
        let ghost o = self@;
        let ghost keep = ends_at_or_after(cutoff);
        let mut kept: VecDeque<TimeBucket> = VecDeque::new();
        let mut i: usize = 0;
        while i < self.completed.len()
            invariant
                i <= o.completed.len(),
                self@ == o,
                keep == ends_at_or_after(cutoff),
                kept@ == o.completed.take(i as int).filter(keep),
            decreases o.completed.len() - i,
        {
            let b = self.completed[i];
            proof {
                assert(o.completed.take(i + 1) =~= o.completed.take(i as int).push(b));
                o.completed.take(i as int).lemma_filter_push(b, keep);
            }
            if b.end_ms >= cutoff {
                kept.push_back(b);
            }
            i = i + 1;
        }
        proof {
            assert(o.completed.take(o.completed.len() as int) =~= o.completed);
        }
        self.completed = kept;
    }

    /// Deterministic digest of the session flow.
    pub fn digest(&self) -> (r: AnalyticsFlowDigest)
        requires
            self@.totals.buy_volume + self@.totals.sell_volume <= u64::MAX,
        ensures
            r.trade_count == self@.totals.trade_count,
            r.trade_volume == self@.totals.buy_volume + self@.totals.sell_volume,
            r.buy_volume == self@.totals.buy_volume,
            r.sell_volume == self@.totals.sell_volume,
            r.delta == self@.totals.buy_volume - self@.totals.sell_volume,
            r.cvd == self@.totals.cvd,
            r.large_trade_count == 0 && r.sweep_candidate_count == 0
                && r.absorption_candidate_count == 0 && r.replenishment_count == 0,
            r.liquidity_added == 0 && r.liquidity_removed == 0,
            exists|ks: Seq<u64>|
                is_sorted_u64_keys(self@.volume_by_price, ks) && r.volume_by_price@.len()
                    == ks.len() && forall|i: int|
                    0 <= i < ks.len() ==> {
                        let v = #[trigger] self@.volume_by_price[ks[i]];
                        r.volume_by_price@[i] == (
                            ks[i],
                            v.total_volume,
                            v.buy_volume,
                            v.sell_volume,
                            v.delta,
                        )
                    },
    {
        let keys = u64_map_keys(&self.volume_by_price);
        let mut rows: Vec<(u64, u64, u64, u64, i128)> = Vec::new();
        let mut i: usize = 0;
        while i < keys.len()
            invariant
                is_sorted_u64_keys(self@.volume_by_price, keys@),
                i <= keys@.len(),
                rows@.len() == i,
                forall|j: int|
                    0 <= j < i ==> {
                        let v = #[trigger] self@.volume_by_price[keys@[j]];
                        rows@[j] == (keys@[j], v.total_volume, v.buy_volume, v.sell_volume, v.delta)
                    },
            decreases keys@.len() - i,
        {
            let k = keys[i];
            assert(self@.volume_by_price.contains_key(k));
            match self.volume_by_price.get(&k) {
                Some(v) => rows.push((k, v.total_volume, v.buy_volume, v.sell_volume, v.delta)),
                None => {},
            }
            i = i + 1;
        }
        AnalyticsFlowDigest {
            trade_count: self.totals.trade_count,
            trade_volume: self.totals.trade_volume(),
            buy_volume: self.totals.buy_volume,
            sell_volume: self.totals.sell_volume,
            delta: self.totals.delta(),
            cvd: self.totals.cvd,
            large_trade_count: 0,
            sweep_candidate_count: 0,
            absorption_candidate_count: 0,
            replenishment_count: 0,
            liquidity_added: 0,
            liquidity_removed: 0,
            volume_by_price: rows,
        }
    }
}

/// Whether a bucket ended at or after `cutoff`.
pub open spec fn ends_at_or_after(cutoff: u64) -> spec_fn(TimeBucket) -> bool {
    |b: TimeBucket| b.end_ms >= cutoff
}

fn empty_time_bucket(interval: u64, start: u64) -> (r: TimeBucket)
    requires
        start + interval <= u64::MAX,
    ensures
        r == empty_bucket(interval, start),
{
    TimeBucket {
        interval_ms: interval,
        start_ms: start,
        end_ms: start + interval,
        buy_volume: 0,
        sell_volume: 0,
        total_volume: 0,
        delta: 0,
        trade_count: 0,
        cvd_end: 0,
    }
}

} // verus!
