//! Trade clustering: nearby aggressive trades, close in time and price, are
//! grouped into clusters, the raw material for sweep classification.
use std::collections::VecDeque;
use vstd::prelude::*;

use crate::analytics::config::{saturating_product, AnalyticsConfig};
use crate::trades::trade::{AggressorSide, TradeEvent};

verus! {

broadcast use vstd::std_specs::vecdeque::group_vec_dequeue_axioms;

/// A trade cluster.
///
/// The share of the dominant side is `dominant_volume() / total_volume`;
/// it is left to the caller as a ratio of these two integers.
#[derive(Debug, Clone, Copy, PartialEq, Eq, Structural)]
pub struct TradeCluster {
    pub start_ms: u64,
    pub end_ms: u64,
    pub high: u64,
    pub low: u64,
    pub total_volume: u64,
    pub buy_volume: u64,
    pub sell_volume: u64,
    pub delta: i128,
    pub trade_count: u64,
    pub largest_trade_quantity: u64,
    pub dominant_side: AggressorSide,
    /// Number of price changes plus one.
    pub levels_crossed: u32,
    /// Every price change went the dominant side's way.
    pub monotonic: bool,
    pub first_price: u64,
    pub last_price: u64,
}

/// `a - b`, or 0 when `b > a`.
pub open spec fn sat_sub(a: u64, b: u64) -> u64 {
    if a >= b {
        (a - b) as u64
    } else {
        0
    }
}

/// The distance between two prices.
pub open spec fn abs_diff(a: u64, b: u64) -> u64 {
    if a >= b {
        (a - b) as u64
    } else {
        (b - a) as u64
    }
}

/// The cluster that a trade opens.
pub open spec fn fresh_cluster(trade: TradeEvent) -> TradeCluster {
    TradeCluster {
        start_ms: trade.trade_time,
        end_ms: trade.trade_time,
        high: trade.price_ticks,
        low: trade.price_ticks,
        total_volume: 0,
        buy_volume: 0,
        sell_volume: 0,
        delta: 0,
        trade_count: 0,
        largest_trade_quantity: 0,
        dominant_side: trade.aggressor,
        levels_crossed: 1,
        monotonic: true,
        first_price: trade.price_ticks,
        last_price: trade.price_ticks,
    }
}

/// `c` can take one more trade of `quantity` without an overflow.
pub open spec fn has_room(c: TradeCluster, quantity: u64) -> bool {
    &&& c.total_volume + quantity <= u64::MAX
    &&& c.trade_count < u64::MAX
    &&& c.levels_crossed < u32::MAX
}

/// Volumes add up: buys and sells make the total, and `delta` is their
/// difference.
pub open spec fn cluster_wf(c: TradeCluster) -> bool {
    &&& c.buy_volume + c.sell_volume == c.total_volume
    &&& c.delta == c.buy_volume - c.sell_volume
}

/// `c` after absorbing `trade`.
pub open spec fn add_trade(c: TradeCluster, trade: TradeEvent) -> TradeCluster {
    let p = trade.price_ticks;
    let q = trade.quantity_ticks;
    let buy = if trade.aggressor == AggressorSide::Buy {
        c.buy_volume + q
    } else {
        c.buy_volume as int
    };
    let sell = if trade.aggressor == AggressorSide::Sell {
        c.sell_volume + q
    } else {
        c.sell_volume as int
    };
    let moved = p != c.last_price;
    let dir_ok = match c.dominant_side {
        AggressorSide::Buy => p >= c.last_price,
        AggressorSide::Sell => p <= c.last_price,
    };
    TradeCluster {
        start_ms: c.start_ms,
        end_ms: trade.trade_time,
        high: if p > c.high {
            p
        } else {
            c.high
        },
        low: if p < c.low {
            p
        } else {
            c.low
        },
        total_volume: (c.total_volume + q) as u64,
        buy_volume: buy as u64,
        sell_volume: sell as u64,
        delta: (buy - sell) as i128,
        trade_count: (c.trade_count + 1) as u64,
        largest_trade_quantity: if q > c.largest_trade_quantity {
            q
        } else {
            c.largest_trade_quantity
        },
        dominant_side: if buy >= sell {
            AggressorSide::Buy
        } else {
            AggressorSide::Sell
        },
        levels_crossed: if moved {
            (c.levels_crossed + 1) as u32
        } else {
            c.levels_crossed
        },
        monotonic: if moved {
            c.monotonic && dir_ok
        } else {
            c.monotonic
        },
        first_price: c.first_price,
        last_price: p,
    }
}

/// How a trade moves a cluster's direction: a price at or beyond the last
/// one in the dominant side's direction (at or below it for a sell cluster,
/// at or above it for a buy cluster) leaves `monotonic` as it was, and a
/// price that turns back against the dominant side clears it. The first
/// price stays, and the trade's price becomes the last one.
pub proof fn lemma_add_trade_direction(c: TradeCluster, trade: TradeEvent)
    ensures
        ({
            let n = add_trade(c, trade);
            let p = trade.price_ticks;
            &&& n.first_price == c.first_price
            &&& n.last_price == p
            &&& (c.dominant_side == AggressorSide::Sell && p <= c.last_price ==> n.monotonic
                == c.monotonic)
            &&& (c.dominant_side == AggressorSide::Buy && p >= c.last_price ==> n.monotonic
                == c.monotonic)
            &&& (c.dominant_side == AggressorSide::Sell && p > c.last_price ==> !n.monotonic)
            &&& (c.dominant_side == AggressorSide::Buy && p < c.last_price ==> !n.monotonic)
        }),
{
}

/// `c` after absorbing the trades of `ts` in order.
pub open spec fn add_trades(c: TradeCluster, ts: Seq<TradeEvent>) -> TradeCluster
    decreases ts.len(),
{
    if ts.len() == 0 {
        c
    } else {
        add_trade(add_trades(c, ts.drop_last()), ts.last())
    }
}

/// Sum of the trades' quantities.
pub open spec fn total_quantity(ts: Seq<TradeEvent>) -> int
    decreases ts.len(),
{
    if ts.len() == 0 {
        0
    } else {
        total_quantity(ts.drop_last()) + ts.last().quantity_ticks
    }
}

/// A cluster opened by a sell trade and fed only sell trades (of non-zero
/// size, whose total fits the volume counter) at prices that never rise
/// stays sell-dominated and monotonic: a steadily falling sell cluster is a
/// directional one. Its volume is all on the sell side.
pub proof fn lemma_falling_sells_stay_monotonic(ts: Seq<TradeEvent>)
    requires
        ts.len() > 0,
        forall|i: int|
            0 <= i < ts.len() ==> #[trigger] ts[i].aggressor == AggressorSide::Sell
                && ts[i].quantity_ticks > 0,
        forall|i: int, j: int|
            0 <= i <= j < ts.len() ==> #[trigger] ts[j].price_ticks <= #[trigger] ts[i].price_ticks,
        total_quantity(ts) <= u64::MAX,
    ensures
        ({
            let c = add_trades(fresh_cluster(ts[0]), ts);
            &&& c.monotonic
            &&& c.dominant_side == AggressorSide::Sell
            &&& c.buy_volume == 0
            &&& c.sell_volume == total_quantity(ts)
            &&& c.first_price == ts[0].price_ticks
            &&& c.last_price == ts.last().price_ticks
        }),
    decreases ts.len(),
{
    let c0 = fresh_cluster(ts[0]);
    if ts.len() == 1 {
        assert(ts.drop_last().len() == 0);
        assert(add_trades(c0, ts.drop_last()) == c0);
        assert(total_quantity(ts.drop_last()) == 0);
    } else {
        let rest = ts.drop_last();
        assert forall|i: int| 0 <= i < rest.len() implies #[trigger] rest[i].aggressor
            == AggressorSide::Sell && rest[i].quantity_ticks > 0 by {
            assert(rest[i] == ts[i]);
        }
        assert forall|i: int, j: int| 0 <= i <= j < rest.len() implies #[trigger] rest[j].price_ticks
            <= #[trigger] rest[i].price_ticks by {
            assert(rest[i] == ts[i] && rest[j] == ts[j]);
        }
        assert(ts[ts.len() - 1].quantity_ticks > 0);
        assert(rest[0] == ts[0]);
        lemma_falling_sells_stay_monotonic(rest);
        let prev = add_trades(c0, rest);
        assert(rest.last() == ts[ts.len() - 2]);
        assert(ts.last() == ts[ts.len() - 1]);
        assert(ts[ts.len() - 1].price_ticks <= ts[ts.len() - 2].price_ticks);
        assert(ts[ts.len() - 1].aggressor == AggressorSide::Sell);
        lemma_add_trade_direction(prev, ts.last());
    }
}

/// A trade joins the open cluster when it comes within `window_ms` of the
/// cluster's last trade and within `range` of its last price.
pub open spec fn joins(open: Option<TradeCluster>, trade: TradeEvent, window_ms: u64, range: u64) -> bool {
    match open {
        Some(c) => sat_sub(trade.trade_time, c.end_ms) <= window_ms && abs_diff(
            trade.price_ticks,
            c.last_price,
        ) <= range,
        None => false,
    }
}

/// Closed clusters with those that ended before `cutoff` dropped from the
/// front.
pub open spec fn drop_ended_clusters(s: Seq<TradeCluster>, cutoff: u64) -> Seq<TradeCluster>
    decreases s.len(),
{
    if s.len() > 0 && s[0].end_ms < cutoff {
        drop_ended_clusters(s.drop_first(), cutoff)
    } else {
        s
    }
}

/// Abstract state of a [`ClusterTracker`].
pub struct ClusterModel {
    pub window_ms: u64,
    /// Price range in raw ticks.
    pub price_range_ticks: u64,
    pub retention_ms: u64,
    pub open: Option<TradeCluster>,
    /// Closed clusters, oldest first.
    pub closed: Seq<TradeCluster>,
}

/// Trade-cluster tracker.
pub struct ClusterTracker {
    window_ms: u64,
    price_range_ticks: u64,
    open: Option<TradeCluster>,
    closed: VecDeque<TradeCluster>,
    retention_ms: u64,
}

impl View for ClusterTracker {
    type V = ClusterModel;

    closed spec fn view(&self) -> ClusterModel {
        ClusterModel {
            window_ms: self.window_ms,
            price_range_ticks: self.price_range_ticks,
            retention_ms: self.retention_ms,
            open: self.open,
            closed: self.closed@,
        }
    }
}

impl TradeCluster {
    /// Time from the first to the last trade (0 if out of order).
    pub fn duration_ms(&self) -> (r: u64)
        ensures
            r == sat_sub(self.end_ms, self.start_ms),
    {
        if self.end_ms >= self.start_ms {
            self.end_ms - self.start_ms
        } else {
            0
        }
    }

    /// The volume of the dominant side.
    pub fn dominant_volume(&self) -> (r: u64)
        ensures
            r == (if self.dominant_side == AggressorSide::Buy {
                self.buy_volume
            } else {
                self.sell_volume
            }),
    {
        match self.dominant_side {
            AggressorSide::Buy => self.buy_volume,
            AggressorSide::Sell => self.sell_volume,
        }
    }
}

impl ClusterTracker {
    pub fn new(cfg: &AnalyticsConfig) -> (r: Self)
        ensures
            r@ == (ClusterModel {
                window_ms: cfg.cluster_window_ms,
                price_range_ticks: saturating_product(
                    cfg.cluster_price_range_ticks,
                    cfg.tick_size_ticks,
                ),
                retention_ms: cfg.retention_ms,
                open: None,
                closed: Seq::empty(),
            }),
    {
        ClusterTracker {
            window_ms: cfg.cluster_window_ms,
            price_range_ticks: cfg.cluster_price_range_raw(),
            open: None,
            closed: VecDeque::new(),
            retention_ms: cfg.retention_ms,
        }
    }

    /// Whether the open cluster has room for the trade, when it would join it.
    pub fn join_room(&self, trade: &TradeEvent) -> (r: bool)
        ensures
            r == (joins(self@.open, *trade, self@.window_ms, self@.price_range_ticks) ==> has_room(
                self@.open.unwrap(),
                trade.quantity_ticks,
            )),
    {
        match &self.open {
            Some(c) => {
                let gap = if trade.trade_time >= c.end_ms {
                    trade.trade_time - c.end_ms
                } else {
                    0
                };
                let dist = if trade.price_ticks >= c.last_price {
                    trade.price_ticks - c.last_price
                } else {
                    c.last_price - trade.price_ticks
                };
                if gap <= self.window_ms && dist <= self.price_range_ticks {
                    c.total_volume as u128 + trade.quantity_ticks as u128 <= u64::MAX as u128
                        && c.trade_count < u64::MAX && c.levels_crossed < u32::MAX
                } else {
                    true
                }
            },
            None => true,
        }
    }

    /// Feed a trade. When it does not join the open cluster, that cluster is
    /// closed (kept and returned) and the trade opens a new one.
    pub fn on_trade(&mut self, trade: &TradeEvent) -> (r: Option<TradeCluster>)
        requires
            old(self)@.open matches Some(c) ==> cluster_wf(c),
            joins(old(self)@.open, *trade, old(self)@.window_ms, old(self)@.price_range_ticks)
                ==> has_room(old(self)@.open.unwrap(), trade.quantity_ticks),
        ensures
            ({
                let o = old(self)@;
                let joined = joins(o.open, *trade, o.window_ms, o.price_range_ticks);
                let base = if joined {
                    o.open.unwrap()
                } else {
                    fresh_cluster(*trade)
                };
                &&& r == (if joined {
                    None
                } else {
                    o.open
                })
                &&& final(self)@ == ClusterModel {
                    open: Some(add_trade(base, *trade)),
                    closed: if !joined && o.open is Some {
                        o.closed.push(o.open.unwrap())
                    } else {
                        o.closed
                    },
                    ..o
                }
            }),
            final(self)@.open matches Some(c) && cluster_wf(c),
    {
        let ts = trade.trade_time;
        let price = trade.price_ticks;
        let fits = match &self.open {
            Some(c) => {
                let gap = if ts >= c.end_ms {
                    ts - c.end_ms
                } else {
                    0
                };
                let dist = if price >= c.last_price {
                    price - c.last_price
                } else {
                    c.last_price - price
                };
                gap <= self.window_ms && dist <= self.price_range_ticks
            },
            None => false,
        };
        let mut closed: Option<TradeCluster> = None;
        let base = if fits {
            self.open.unwrap()
        } else {
            closed = self.open;
            if let Some(c) = closed {
                self.closed.push_back(c);
            }
            TradeCluster {
                start_ms: ts,
                end_ms: ts,
                high: price,
                low: price,
                total_volume: 0,
                buy_volume: 0,
                sell_volume: 0,
                delta: 0,
                trade_count: 0,
                largest_trade_quantity: 0,
                dominant_side: trade.aggressor,
                levels_crossed: 1,
                monotonic: true,
                first_price: price,
                last_price: price,
            }
        };
        let c = Self::absorb(base, trade);
        self.open = Some(c);
        closed
    }

    /// `c` after one more trade.
    fn absorb(c: TradeCluster, trade: &TradeEvent) -> (r: TradeCluster)
        requires
            cluster_wf(c),
            has_room(c, trade.quantity_ticks),
        ensures
            r == add_trade(c, *trade),
            cluster_wf(r),
            c.dominant_side == AggressorSide::Sell && trade.price_ticks <= c.last_price
                ==> r.monotonic == c.monotonic,
            c.dominant_side == AggressorSide::Buy && trade.price_ticks >= c.last_price
                ==> r.monotonic == c.monotonic,
    {
        let p = trade.price_ticks;
        let q = trade.quantity_ticks;
        let mut n = c;
        n.end_ms = trade.trade_time;
        if p > n.high {
            n.high = p;
        }
        if p < n.low {
            n.low = p;
        }
        n.total_volume = c.total_volume + q;
        n.trade_count = c.trade_count + 1;
        match trade.aggressor {
            AggressorSide::Buy => {
                n.buy_volume = c.buy_volume + q;
                n.delta = c.delta + q as i128;
            },
            AggressorSide::Sell => {
                n.sell_volume = c.sell_volume + q;
                n.delta = c.delta - q as i128;
            },
        }
        if q > n.largest_trade_quantity {
            n.largest_trade_quantity = q;
        }
        if p != c.last_price {
            n.levels_crossed = c.levels_crossed + 1;
            let dir_ok = match c.dominant_side {
                AggressorSide::Buy => p >= c.last_price,
                AggressorSide::Sell => p <= c.last_price,
            };
            n.monotonic = c.monotonic && dir_ok;
        }
        n.last_price = p;
        n.dominant_side = if n.buy_volume >= n.sell_volume {
            AggressorSide::Buy
        } else {
            AggressorSide::Sell
        };
        n
    }

    /// Close the open cluster, if any, keeping and returning it.
    pub fn close_open(&mut self) -> (r: Option<TradeCluster>)
        ensures
            r == old(self)@.open,
            final(self)@ == (ClusterModel {
                open: None,
                closed: match old(self)@.open {
                    Some(c) => old(self)@.closed.push(c),
                    None => old(self)@.closed,
                },
                ..old(self)@
            }),
    {
        let c = self.open;
        self.open = None;
        if let Some(cl) = c {
            self.closed.push_back(cl);
        }
        c
    }

    /// The closed clusters, oldest first.
    pub fn closed_clusters(&self) -> (r: Vec<TradeCluster>)
        ensures
            r@ == self@.closed,
    {
        let mut out: Vec<TradeCluster> = Vec::new();
        let mut i: usize = 0;
        while i < self.closed.len()
            invariant
                i <= self@.closed.len(),
                out@ == self@.closed.take(i as int),
            decreases self@.closed.len() - i,
        {
            out.push(self.closed[i]);
            proof {
                assert(out@ =~= self@.closed.take(i + 1));
            }
            i = i + 1;
        }
        proof {
            assert(self@.closed.take(self@.closed.len() as int) =~= self@.closed);
        }
        out
    }

    /// Drop closed clusters that ended before `now_ms - retention_ms`.
    pub fn prune(&mut self, now_ms: u64)
        ensures
            final(self)@ == (ClusterModel {
                closed: drop_ended_clusters(
                    old(self)@.closed,
                    sat_sub(now_ms, old(self)@.retention_ms),
                ),
                ..old(self)@
            }),
    {
        let cutoff: u64 = if now_ms >= self.retention_ms {
            now_ms - self.retention_ms
        } else {
            0
        };
        let ghost o = self@;
        loop
            invariant
                drop_ended_clusters(self@.closed, cutoff) == drop_ended_clusters(o.closed, cutoff),
                self@ == (ClusterModel { closed: self@.closed, ..o }),
            ensures
                self@.closed == drop_ended_clusters(o.closed, cutoff),
                self@ == (ClusterModel { closed: self@.closed, ..o }),
            decreases self@.closed.len(),
        {
            if self.closed.len() == 0 {
                break;
            }
            let front = self.closed[0];
            if front.end_ms < cutoff {
                let ghost before = self@.closed;
                self.closed.pop_front();
                assert(self@.closed =~= before.drop_first());
            } else {
                break;
            }
        }
    }
}

} // verus!
