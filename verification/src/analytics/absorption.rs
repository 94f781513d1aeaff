//! Absorption windows: heavy aggression met by passive liquidity.
use std::collections::BTreeMap;
use vstd::prelude::*;

use crate::analytics::clusters::sat_sub;
use crate::analytics::config::AnalyticsConfig;
use crate::ordered_map::{is_sorted_u64_keys, u64_map_keys};
use crate::trades::trade::{AggressorSide, TradeEvent};

verus! {

broadcast use vstd::std_specs::btree::group_btree_axioms;

/// An absorption window in progress.
#[derive(Debug, Clone, Copy, PartialEq, Eq, Structural)]
pub struct AbsorptionWindow {
    pub price: u64,
    pub side: AggressorSide,
    pub open_ms: u64,
    pub close_ms: u64,
    /// Best price when the window opened.
    pub reference_price: u64,
    pub trade_count: u64,
    pub aggressive_volume: u64,
    /// Largest displacement (ticks) of the price toward the aggressor.
    pub max_favorable_displacement: u64,
    /// Opposing liquidity when the window opened.
    pub opposing_liquidity_open: u64,
    /// Opposing liquidity when the window closed.
    pub opposing_liquidity_close: u64,
    /// Volume replenished at the reference level during the window.
    pub replenished_volume: u64,
    pub evaluated: bool,
}

/// The window a trade opens at its price.
pub open spec fn open_window(trade: TradeEvent, best_price: u64, opposing: u64) -> AbsorptionWindow {
    AbsorptionWindow {
        price: trade.price_ticks,
        side: trade.aggressor,
        open_ms: trade.trade_time,
        close_ms: trade.trade_time,
        reference_price: best_price,
        trade_count: 1,
        aggressive_volume: trade.quantity_ticks,
        max_favorable_displacement: 0,
        opposing_liquidity_open: opposing,
        opposing_liquidity_close: opposing,
        replenished_volume: 0,
        evaluated: false,
    }
}

/// `w` after one more trade, with the passive best price at `best_price`.
pub open spec fn extend_window(w: AbsorptionWindow, trade: TradeEvent, best_price: u64) -> AbsorptionWindow {
    let d = match trade.aggressor {
        AggressorSide::Buy => sat_sub(best_price, w.reference_price),
        AggressorSide::Sell => sat_sub(w.reference_price, best_price),
    };
    AbsorptionWindow {
        trade_count: (w.trade_count + 1) as u64,
        aggressive_volume: (w.aggressive_volume + trade.quantity_ticks) as u64,
        max_favorable_displacement: if d > w.max_favorable_displacement {
            d
        } else {
            w.max_favorable_displacement
        },
        close_ms: trade.trade_time,
        ..w
    }
}

/// The favourable displacement of a window is measured toward the
/// aggressor: a sell trade with the best price below the reference raises it
/// to at least `reference_price - best_price`, a buy trade with the best
/// price above the reference to at least `best_price - reference_price`, and
/// a best price on the other side of the reference leaves it unchanged. It
/// never falls; the window counts the trade and its volume.
pub proof fn lemma_extend_window_displacement(w: AbsorptionWindow, trade: TradeEvent, best_price: u64)
    ensures
        ({
            let n = extend_window(w, trade, best_price);
            let old_d = w.max_favorable_displacement;
            &&& n.max_favorable_displacement >= old_d
            &&& (trade.aggressor == AggressorSide::Sell && best_price <= w.reference_price ==> {
                &&& n.max_favorable_displacement + best_price >= w.reference_price
                &&& (n.max_favorable_displacement == old_d || n.max_favorable_displacement
                    + best_price == w.reference_price)
            })
            &&& (trade.aggressor == AggressorSide::Sell && best_price > w.reference_price
                ==> n.max_favorable_displacement == old_d)
            &&& (trade.aggressor == AggressorSide::Buy && best_price >= w.reference_price ==> {
                &&& w.reference_price + n.max_favorable_displacement >= best_price
                &&& (n.max_favorable_displacement == old_d || w.reference_price
                    + n.max_favorable_displacement == best_price)
            })
            &&& (trade.aggressor == AggressorSide::Buy && best_price < w.reference_price
                ==> n.max_favorable_displacement == old_d)
            &&& n.reference_price == w.reference_price
            &&& (w.trade_count < u64::MAX ==> n.trade_count == w.trade_count + 1)
            &&& n.close_ms == trade.trade_time
        }),
{
}

/// `price` lies on the passive side of `w`'s reference (above it for a buy
/// window, below it for a sell window) and `ts` is within the window.
pub open spec fn touches(w: AbsorptionWindow, price: u64, ts: u64, window_ms: u64) -> bool {
    &&& (if w.side == AggressorSide::Buy {
        price > w.reference_price
    } else {
        price < w.reference_price
    })
    &&& sat_sub(ts, w.open_ms) <= window_ms
}

/// The detector after `delta_ticks` of liquidity appears at `price` at
/// `ts`: every open window that the price touches adds it to its
/// replenished volume.
pub open spec fn absorption_after_liquidity(o: AbsorptionModel, price: u64, delta_ticks: u64, ts: u64) -> AbsorptionModel {
    AbsorptionModel {
        windows: Map::new(
            |k: u64| o.windows.contains_key(k),
            |k: u64|
                if touches(o.windows[k], price, ts, o.window_ms) {
                    AbsorptionWindow {
                        replenished_volume: (o.windows[k].replenished_volume + delta_ticks) as u64,
                        ..o.windows[k]
                    }
                } else {
                    o.windows[k]
                },
        ),
        ..o
    }
}

/// Room for `absorption_after_liquidity`.
pub open spec fn absorption_liquidity_room(o: AbsorptionModel, price: u64, delta_ticks: u64, ts: u64) -> bool {
    forall|k: u64|
        #[trigger] o.windows.contains_key(k) && touches(o.windows[k], price, ts, o.window_ms)
            ==> o.windows[k].replenished_volume + delta_ticks <= u64::MAX
}

/// The detector after the opposing level at `price` shows `qty` at `ts`.
pub open spec fn absorption_after_opposing(o: AbsorptionModel, price: u64, qty: u64, ts: u64) -> AbsorptionModel {
    AbsorptionModel {
        windows: Map::new(
            |k: u64| o.windows.contains_key(k),
            |k: u64|
                if touches(o.windows[k], price, ts, o.window_ms) {
                    AbsorptionWindow { opposing_liquidity_close: qty, ..o.windows[k] }
                } else {
                    o.windows[k]
                },
        ),
        ..o
    }
}

/// `max(a, 1)`.
pub open spec fn at_least_one(a: u64) -> u64 {
    if a == 0 {
        1
    } else {
        a
    }
}

/// Abstract state of an [`AbsorptionDetector`].
pub struct AbsorptionModel {
    pub window_ms: u64,
    pub min_trades: u32,
    pub min_volume_ticks: u64,
    /// Maximum excursion in tick-size units.
    pub max_excursion_ticks: u64,
    pub tick_size_ticks: u64,
    /// Open windows by aggressor price.
    pub windows: Map<u64, AbsorptionWindow>,
    /// Candidates reported so far.
    pub count: u64,
}

/// Absorption windows keyed by aggressor price.
///
/// The detector tracks windows and applies the integer gates; the caller
/// scores a window that passes them and calls `record_candidate` for the
/// candidates it reports.
pub struct AbsorptionDetector {
    window_ms: u64,
    min_trades: u32,
    min_volume_ticks: u64,
    max_excursion_ticks: u64,
    tick_size_ticks: u64,
    windows: BTreeMap<u64, AbsorptionWindow>,
    count: u64,
}

impl View for AbsorptionDetector {
    type V = AbsorptionModel;

    closed spec fn view(&self) -> AbsorptionModel {
        AbsorptionModel {
            window_ms: self.window_ms,
            min_trades: self.min_trades,
            min_volume_ticks: self.min_volume_ticks,
            max_excursion_ticks: self.max_excursion_ticks,
            tick_size_ticks: self.tick_size_ticks,
            windows: self.windows@,
            count: self.count,
        }
    }
}

/// The gates of a closed window: enough trades, enough volume, and a
/// favourable displacement (in tick-size units) within the excursion.
/// Gives `(displacement, excursion)` in tick-size units when they pass.
pub open spec fn window_gate(m: AbsorptionModel, w: AbsorptionWindow) -> Option<(u64, u64)> {
    let excursion = at_least_one(m.max_excursion_ticks);
    let displacement = (w.max_favorable_displacement / at_least_one(m.tick_size_ticks)) as u64;
    if (w.trade_count as u32) < m.min_trades {
        None
    } else if w.aggressive_volume < m.min_volume_ticks {
        None
    } else if displacement > excursion {
        None
    } else {
        Some((displacement, excursion))
    }
}

impl AbsorptionDetector {
    pub fn new(cfg: &AnalyticsConfig) -> (r: Self)
        ensures
            r@ == (AbsorptionModel {
                window_ms: cfg.absorption_window_ms,
                min_trades: cfg.absorption_min_trades,
                min_volume_ticks: cfg.absorption_min_volume_ticks,
                max_excursion_ticks: cfg.absorption_max_excursion_ticks,
                tick_size_ticks: cfg.tick_size_ticks,
                windows: Map::empty(),
                count: 0,
            }),
    {
        AbsorptionDetector {
            window_ms: cfg.absorption_window_ms,
            min_trades: cfg.absorption_min_trades,
            min_volume_ticks: cfg.absorption_min_volume_ticks,
            max_excursion_ticks: cfg.absorption_max_excursion_ticks,
            tick_size_ticks: cfg.tick_size_ticks,
            windows: BTreeMap::new(),
            count: 0,
        }
    }

    /// Process an aggressive trade. `best_price` is the current best price on
    /// the passive side and `opposing_liquidity` the displayed liquidity
    /// against the aggressor.
    ///
    /// A trade at a price without a window opens one. A trade within the
    /// window's time extends it. A trade after it closes the window, which is
    /// removed and returned for evaluation; that trade opens nothing.
    pub fn on_trade(&mut self, trade: &TradeEvent, best_price: u64, opposing_liquidity: u64) -> (r:
        Option<AbsorptionWindow>)
        requires
            old(self)@.windows.contains_key(trade.price_ticks) && sat_sub(
                trade.trade_time,
                old(self)@.windows[trade.price_ticks].open_ms,
            ) <= old(self)@.window_ms ==> {
                let w = old(self)@.windows[trade.price_ticks];
                &&& w.trade_count < u64::MAX
                &&& w.aggressive_volume + trade.quantity_ticks <= u64::MAX
            },
        ensures
            ({
                let o = old(self)@;
                let p = trade.price_ticks;
                if !o.windows.contains_key(p) {
                    &&& r is None
                    &&& final(self)@ == AbsorptionModel {
                        windows: o.windows.insert(p, open_window(*trade, best_price, opposing_liquidity)),
                        ..o
                    }
                } else if sat_sub(trade.trade_time, o.windows[p].open_ms) > o.window_ms {
                    &&& r == Some(o.windows[p])
                    &&& final(self)@ == AbsorptionModel { windows: o.windows.remove(p), ..o }
                } else {
                    &&& r is None
                    &&& final(self)@ == AbsorptionModel {
                        windows: o.windows.insert(p, extend_window(o.windows[p], *trade, best_price)),
                        ..o
                    }
                }
            }),
            old(self)@.windows.contains_key(trade.price_ticks) && sat_sub(
                trade.trade_time,
                old(self)@.windows[trade.price_ticks].open_ms,
            ) <= old(self)@.window_ms ==> {
                let w = old(self)@.windows[trade.price_ticks];
                let n = final(self)@.windows[trade.price_ticks];
                &&& n.max_favorable_displacement >= w.max_favorable_displacement
                &&& (trade.aggressor == AggressorSide::Sell && best_price <= w.reference_price
                    ==> n.max_favorable_displacement + best_price >= w.reference_price)
                &&& (trade.aggressor == AggressorSide::Buy && best_price >= w.reference_price
                    ==> w.reference_price + n.max_favorable_displacement >= best_price)
            },
    {
        let ts = trade.trade_time;
        let p = trade.price_ticks;
        let current = match self.windows.get(&p) {
            Some(w) => Some(*w),
            None => None,
        };
        match current {
            Some(w) => {
                let age = if ts >= w.open_ms {
                    ts - w.open_ms
                } else {
                    0
                };
                if age > self.window_ms {
                    self.windows.remove(&p);
                    Some(w)
                } else {
                    let d = match trade.aggressor {
                        AggressorSide::Buy => if best_price >= w.reference_price {
                            best_price - w.reference_price
                        } else {
                            0
                        },
                        AggressorSide::Sell => if w.reference_price >= best_price {
                            w.reference_price - best_price
                        } else {
                            0
                        },
                    };
                    let mut n = w;
                    n.trade_count = w.trade_count + 1;
                    n.aggressive_volume = w.aggressive_volume + trade.quantity_ticks;
                    if d > w.max_favorable_displacement {
                        n.max_favorable_displacement = d;
                    }
                    n.close_ms = ts;
                    self.windows.insert(p, n);
                    None
                }
            },
            None => {
                self.windows.insert(
                    p,
                    AbsorptionWindow {
                        price: p,
                        side: trade.aggressor,
                        open_ms: ts,
                        close_ms: ts,
                        reference_price: best_price,
                        trade_count: 1,
                        aggressive_volume: trade.quantity_ticks,
                        max_favorable_displacement: 0,
                        opposing_liquidity_open: opposing_liquidity,
                        opposing_liquidity_close: opposing_liquidity,
                        replenished_volume: 0,
                        evaluated: false,
                    },
                );
                None
            },
        }
    }

    /// Whether the trade's window has room for it, when the trade extends it.
    pub fn trade_room(&self, trade: &TradeEvent) -> (r: bool)
        ensures
            r == (self@.windows.contains_key(trade.price_ticks) && sat_sub(
                trade.trade_time,
                self@.windows[trade.price_ticks].open_ms,
            ) <= self@.window_ms ==> {
                let w = self@.windows[trade.price_ticks];
                &&& w.trade_count < u64::MAX
                &&& w.aggressive_volume + trade.quantity_ticks <= u64::MAX
            }),
    {
        match self.windows.get(&trade.price_ticks) {
            Some(w) => {
                let age = if trade.trade_time >= w.open_ms {
                    trade.trade_time - w.open_ms
                } else {
                    0
                };
                if age <= self.window_ms {
                    w.trade_count < u64::MAX && w.aggressive_volume as u128 + trade.quantity_ticks as u128
                        <= u64::MAX as u128
                } else {
                    true
                }
            },
            None => true,
        }
    }

    /// Whether every open window that `price` touches at `ts` has room to
    /// add `delta_ticks` to its replenished volume.
    pub fn has_liquidity_room(&self, price: u64, delta_ticks: u64, ts: u64) -> (r: bool)
        ensures
            r == (forall|k: u64|
                #[trigger] self@.windows.contains_key(k) && touches(
                    self@.windows[k],
                    price,
                    ts,
                    self@.window_ms,
                ) ==> self@.windows[k].replenished_volume + delta_ticks <= u64::MAX),
    {
        let keys = u64_map_keys(&self.windows);
        let mut i: usize = 0;
        while i < keys.len()
            invariant
                is_sorted_u64_keys(self@.windows, keys@),
                0 <= i <= keys@.len(),
                forall|j: int|
                    0 <= j < i && touches(
                        self@.windows[#[trigger] keys@[j]],
                        price,
                        ts,
                        self@.window_ms,
                    ) ==> self@.windows[keys@[j]].replenished_volume + delta_ticks <= u64::MAX,
            decreases keys@.len() - i,
        {
            let k = keys[i];
            assert(self@.windows.contains_key(keys@[i as int]));
            let w = *self.windows.get(&k).unwrap();
            let opposing = if w.side == AggressorSide::Buy {
                price > w.reference_price
            } else {
                price < w.reference_price
            };
            let age = if ts >= w.open_ms {
                ts - w.open_ms
            } else {
                0
            };
            if opposing && age <= self.window_ms && w.replenished_volume as u128 + delta_ticks as u128
                > u64::MAX as u128 {
                return false;
            }
            i = i + 1;
        }
        proof {
            assert forall|k: u64|
                #[trigger] self@.windows.contains_key(k) && touches(
                    self@.windows[k],
                    price,
                    ts,
                    self@.window_ms,
                ) implies self@.windows[k].replenished_volume + delta_ticks <= u64::MAX by {
                assert(keys@.contains(k));
                let j = choose|j: int| 0 <= j < keys@.len() && keys@[j] == k;
                assert(touches(self@.windows[keys@[j]], price, ts, self@.window_ms));
            }
        }
        true
    }

    /// Record replenishment of `delta_ticks` at `price`: every open window
    /// that the price touches within its time adds it to its replenished
    /// volume.
    pub fn on_liquidity_change(&mut self, price: u64, delta_ticks: u64, ts: u64)
        requires
            forall|k: u64|
                #[trigger] old(self)@.windows.contains_key(k) && touches(
                    old(self)@.windows[k],
                    price,
                    ts,
                    old(self)@.window_ms,
                ) ==> old(self)@.windows[k].replenished_volume + delta_ticks <= u64::MAX,
        ensures
            final(self)@ == absorption_after_liquidity(old(self)@, price, delta_ticks, ts),
            ({
                let o = old(self)@;
                final(self)@ == AbsorptionModel {
                    windows: Map::new(
                        |k: u64| o.windows.contains_key(k),
                        |k: u64|
                            if touches(o.windows[k], price, ts, o.window_ms) {
                                AbsorptionWindow {
                                    replenished_volume: (o.windows[k].replenished_volume
                                        + delta_ticks) as u64,
                                    ..o.windows[k]
                                }
                            } else {
                                o.windows[k]
                            },
                    ),
                    ..o
                }
            }),
    {
        let ghost o = self@;
        let keys = u64_map_keys(&self.windows);
        let mut i: usize = 0;
        while i < keys.len()
            invariant
                is_sorted_u64_keys(o.windows, keys@),
                0 <= i <= keys@.len(),
                self@ == (AbsorptionModel { windows: self@.windows, ..o }),
                self@.windows.dom() == o.windows.dom(),
                forall|j: int|
                    0 <= j < i ==> #[trigger] self@.windows[keys@[j]] == (if touches(
                        o.windows[keys@[j]],
                        price,
                        ts,
                        o.window_ms,
                    ) {
                        AbsorptionWindow {
                            replenished_volume: (o.windows[keys@[j]].replenished_volume
                                + delta_ticks) as u64,
                            ..o.windows[keys@[j]]
                        }
                    } else {
                        o.windows[keys@[j]]
                    }),
                forall|j: int| i <= j < keys@.len() ==> #[trigger] self@.windows[keys@[j]] == o.windows[keys@[j]],
                forall|k: u64|
                    #[trigger] o.windows.contains_key(k) && touches(o.windows[k], price, ts, o.window_ms)
                        ==> o.windows[k].replenished_volume + delta_ticks <= u64::MAX,
            decreases keys@.len() - i,
        {
            let k = keys[i];
            assert(o.windows.contains_key(keys@[i as int]));
            let w = *self.windows.get(&k).unwrap();
            let opposing = if w.side == AggressorSide::Buy {
                price > w.reference_price
            } else {
                price < w.reference_price
            };
            let age = if ts >= w.open_ms {
                ts - w.open_ms
            } else {
                0
            };
            if opposing && age <= self.window_ms {
                let mut n = w;
                n.replenished_volume = w.replenished_volume + delta_ticks;
                self.windows.insert(k, n);
            }
            proof {
                assert forall|j: int| i + 1 <= j < keys@.len() implies #[trigger] self@.windows[keys@[j]]
                    == o.windows[keys@[j]] by {
                    assert(keys@[j] != keys@[i as int]);
                }
                assert forall|j: int| 0 <= j < i implies keys@[j] != keys@[i as int] by {}
            }
            i = i + 1;
        }
        proof {
            let target = Map::new(
                |k: u64| o.windows.contains_key(k),
                |k: u64|
                    if touches(o.windows[k], price, ts, o.window_ms) {
                        AbsorptionWindow {
                            replenished_volume: (o.windows[k].replenished_volume + delta_ticks) as u64,
                            ..o.windows[k]
                        }
                    } else {
                        o.windows[k]
                    },
            );
            assert forall|k: u64| #[trigger] self@.windows.contains_key(k) implies self@.windows[k]
                == target[k] by {
                assert(keys@.contains(k));
                let j = choose|j: int| 0 <= j < keys@.len() && keys@[j] == k;
                assert(self@.windows[keys@[j]] == target[keys@[j]]);
            }
            assert(self@.windows =~= target);
            assert(self@.windows =~= absorption_after_liquidity(o, price, delta_ticks, ts).windows);
        }
    }

    /// Set the closing opposing liquidity of every open window that `price`
    /// touches within its time to `qty`.
    pub fn on_opposing_liquidity(&mut self, price: u64, qty: u64, ts: u64)
        ensures
            final(self)@ == absorption_after_opposing(old(self)@, price, qty, ts),
            ({
                let o = old(self)@;
                final(self)@ == AbsorptionModel {
                    windows: Map::new(
                        |k: u64| o.windows.contains_key(k),
                        |k: u64|
                            if touches(o.windows[k], price, ts, o.window_ms) {
                                AbsorptionWindow { opposing_liquidity_close: qty, ..o.windows[k] }
                            } else {
                                o.windows[k]
                            },
                    ),
                    ..o
                }
            }),
    {
        let ghost o = self@;
        let keys = u64_map_keys(&self.windows);
        let mut i: usize = 0;
        while i < keys.len()
            invariant
                is_sorted_u64_keys(o.windows, keys@),
                0 <= i <= keys@.len(),
                self@ == (AbsorptionModel { windows: self@.windows, ..o }),
                self@.windows.dom() == o.windows.dom(),
                forall|j: int|
                    0 <= j < i ==> #[trigger] self@.windows[keys@[j]] == (if touches(
                        o.windows[keys@[j]],
                        price,
                        ts,
                        o.window_ms,
                    ) {
                        AbsorptionWindow { opposing_liquidity_close: qty, ..o.windows[keys@[j]] }
                    } else {
                        o.windows[keys@[j]]
                    }),
                forall|j: int| i <= j < keys@.len() ==> #[trigger] self@.windows[keys@[j]] == o.windows[keys@[j]],
            decreases keys@.len() - i,
        {
            let k = keys[i];
            assert(o.windows.contains_key(keys@[i as int]));
            let w = *self.windows.get(&k).unwrap();
            let opposing = if w.side == AggressorSide::Buy {
                price > w.reference_price
            } else {
                price < w.reference_price
            };
            let age = if ts >= w.open_ms {
                ts - w.open_ms
            } else {
                0
            };
            if opposing && age <= self.window_ms {
                let mut n = w;
                n.opposing_liquidity_close = qty;
                self.windows.insert(k, n);
            }
            proof {
                assert forall|j: int| i + 1 <= j < keys@.len() implies #[trigger] self@.windows[keys@[j]]
                    == o.windows[keys@[j]] by {
                    assert(keys@[j] != keys@[i as int]);
                }
                assert forall|j: int| 0 <= j < i implies keys@[j] != keys@[i as int] by {}
            }
            i = i + 1;
        }
        proof {
            let target = Map::new(
                |k: u64| o.windows.contains_key(k),
                |k: u64|
                    if touches(o.windows[k], price, ts, o.window_ms) {
                        AbsorptionWindow { opposing_liquidity_close: qty, ..o.windows[k] }
                    } else {
                        o.windows[k]
                    },
            );
            assert forall|k: u64| #[trigger] self@.windows.contains_key(k) implies self@.windows[k]
                == target[k] by {
                assert(keys@.contains(k));
                let j = choose|j: int| 0 <= j < keys@.len() && keys@[j] == k;
                assert(self@.windows[keys@[j]] == target[keys@[j]]);
            }
            assert(self@.windows =~= target);
            assert(self@.windows =~= absorption_after_opposing(o, price, qty, ts).windows);
        }
    }

    /// Remove every open window, returning them in increasing price order.
    pub fn flush(&mut self) -> (r: Vec<AbsorptionWindow>)
        ensures
            final(self)@ == (AbsorptionModel { windows: Map::empty(), ..old(self)@ }),
            r@.len() == old(self)@.windows.len(),
            exists|ks: Seq<u64>|
                #[trigger] is_sorted_u64_keys(old(self)@.windows, ks) && r@ == ks.map_values(
                    |k: u64| old(self)@.windows[k],
                ),
    {
        let ghost o = self@;
        let keys = u64_map_keys(&self.windows);
        let mut out: Vec<AbsorptionWindow> = Vec::new();
        let mut i: usize = 0;
        while i < keys.len()
            invariant
                is_sorted_u64_keys(o.windows, keys@),
                0 <= i <= keys@.len(),
                self@ == (AbsorptionModel { windows: self@.windows, ..o }),
                out@ == keys@.take(i as int).map_values(|k: u64| o.windows[k]),
                forall|k: u64|
                    #[trigger] self@.windows.contains_key(k) <==> o.windows.contains_key(k)
                        && !keys@.take(i as int).contains(k),
                forall|k: u64| #[trigger] self@.windows.contains_key(k) ==> self@.windows[k] == o.windows[k],
            decreases keys@.len() - i,
        {
            let k = keys[i];
            assert(o.windows.contains_key(keys@[i as int]));
            assert(!keys@.take(i as int).contains(k)) by {
                let t0 = keys@.take(i as int);
                if t0.contains(k) {
                    let j = choose|j: int| 0 <= j < t0.len() && #[trigger] t0[j] == k;
                    assert(keys@[j] == k);
                }
            }
            let w = self.windows.remove(&k).unwrap();
            out.push(w);
            proof {
                assert(keys@.take(i + 1) =~= keys@.take(i as int).push(k));
                assert(out@ =~= keys@.take(i + 1).map_values(|k: u64| o.windows[k]));
                assert forall|x: u64| #[trigger] keys@.take(i + 1).contains(x) <==> (keys@.take(
                    i as int,
                ).contains(x) || x == k) by {
                    let t1 = keys@.take(i + 1);
                    let t0 = keys@.take(i as int);
                    if t1.contains(x) && x != k {
                        let j = choose|j: int| 0 <= j < t1.len() && #[trigger] t1[j] == x;
                        assert(j < i);
                        assert(t0[j] == x);
                    }
                    if x == k {
                        assert(keys@.take(i + 1)[i as int] == x);
                    }
                    if t0.contains(x) {
                        let j = choose|j: int| 0 <= j < t0.len() && #[trigger] t0[j] == x;
                        assert(t1[j] == x);
                    }
                }
            }
            i = i + 1;
        }
        proof {
            assert(keys@.take(keys@.len() as int) =~= keys@);
            assert forall|k: u64| !#[trigger] self@.windows.contains_key(k) by {
                if self@.windows.contains_key(k) {
                    assert(keys@.contains(k));
                }
            }
            assert(self@.windows =~= Map::empty());
            lemma_sorted_keys_len(o.windows, keys@);
        }
        out
    }

    /// The gates of a closed window (see [`window_gate`]).
    pub fn gate(&self, w: &AbsorptionWindow) -> (r: Option<(u64, u64)>)
        ensures
            r == window_gate(self@, *w),
    {
        let excursion = if self.max_excursion_ticks == 0 {
            1
        } else {
            self.max_excursion_ticks
        };
        let tick = if self.tick_size_ticks == 0 {
            1
        } else {
            self.tick_size_ticks
        };
        let displacement = w.max_favorable_displacement / tick;
        if (w.trade_count as u32) < self.min_trades {
            None
        } else if w.aggressive_volume < self.min_volume_ticks {
            None
        } else if displacement > excursion {
            None
        } else {
            Some((displacement, excursion))
        }
    }

    /// Count one reported candidate.
    pub fn record_candidate(&mut self)
        requires
            old(self)@.count < u64::MAX,
        ensures
            final(self)@ == (AbsorptionModel { count: (old(self)@.count + 1) as u64, ..old(self)@ }),
    {
        self.count = self.count + 1;
    }

    /// Candidates reported so far.
    pub fn count(&self) -> (r: u64)
        ensures
            r == self@.count,
    {
        self.count
    }

    /// Number of open windows.
    pub fn window_count(&self) -> (r: usize)
        ensures
            r == self@.windows.len(),
    {
        self.windows.len()
    }
}

/// A sorted key list of a map is as long as the map.
proof fn lemma_sorted_keys_len<V>(m: Map<u64, V>, ks: Seq<u64>)
    requires
        m.dom().finite(),
        is_sorted_u64_keys(m, ks),
    ensures
        ks.len() == m.len(),
{
    assert(ks.no_duplicates()) by {
        assert forall|i: int, j: int| 0 <= i < ks.len() && 0 <= j < ks.len() && i != j implies ks[i]
            != ks[j] by {
            if i < j {
                assert(ks[i] < ks[j]);
            } else {
                assert(ks[j] < ks[i]);
            }
        }
    }
    assert(ks.to_set() =~= m.dom()) by {
        assert forall|k: u64| ks.to_set().contains(k) implies m.dom().contains(k) by {
            let i = choose|i: int| 0 <= i < ks.len() && ks[i] == k;
            assert(m.contains_key(ks[i]));
        }
    }
    ks.unique_seq_to_set();
}

} // verus!
