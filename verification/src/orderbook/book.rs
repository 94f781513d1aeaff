//! The local order book: price levels keyed by integer price ticks.
use std::collections::BTreeMap;
use vstd::prelude::*;

use crate::error::OrderBookError;
use crate::orderbook::level::{price_str_to_ticks, quantity_str_to_ticks, text_ticks, PriceLevel};
use crate::ordered_map::{is_top_asc, is_top_desc, max_key, min_key, top_asc, top_desc};

verus! {

broadcast use vstd::std_specs::btree::group_btree_axioms, vstd::laws_cmp::group_laws_cmp;

/// The ticks of a `(price, quantity)` text pair, when both parse.
pub open spec fn level_ticks(e: (String, String)) -> Option<(u64, u64)> {
    match text_ticks(e.0@) {
        Ok(p) => match text_ticks(e.1@) {
            Ok(q) => Some((p, q)),
            Err(_) => None,
        },
        Err(_) => None,
    }
}

/// The error for an unparsable pair: the price text when the price fails,
/// otherwise the quantity text.
pub open spec fn level_error(e: (String, String)) -> OrderBookError {
    if text_ticks(e.0@) is Err {
        OrderBookError::InvalidPriceLevel(e.0)
    } else {
        OrderBookError::InvalidPriceLevel(e.1)
    }
}

/// Apply text levels to a side, in order, stopping at the first pair that
/// does not parse (whose index is returned).
///
/// A zero quantity removes the level in an update and is skipped in a
/// snapshot; any other quantity sets the level.
pub open spec fn apply_levels(m: Map<u64, u64>, lv: Seq<(String, String)>, snapshot: bool) -> (
    Map<u64, u64>,
    Option<int>,
)
    decreases lv.len(),
{
    if lv.len() == 0 {
        (m, None)
    } else {
        let prev = apply_levels(m, lv.drop_last(), snapshot);
        if prev.1 is Some {
            prev
        } else {
            match level_ticks(lv.last()) {
                None => (prev.0, Some(lv.len() - 1)),
                Some(pq) => (
                    if pq.1 == 0 {
                        if snapshot {
                            prev.0
                        } else {
                            prev.0.remove(pq.0)
                        }
                    } else {
                        prev.0.insert(pq.0, pq.1)
                    },
                    None,
                ),
            }
        }
    }
}

/// No level holds a zero quantity.
pub open spec fn positive_levels(m: Map<u64, u64>) -> bool {
    forall|k: u64| #[trigger] m.contains_key(k) ==> m[k] > 0
}

/// `r` is the largest key of `m` (`None` for an empty map).
pub open spec fn is_max_key(m: Map<u64, u64>, r: Option<u64>) -> bool {
    &&& r is None <==> m.dom().is_empty()
    &&& r matches Some(k) ==> m.contains_key(k) && forall|j: u64| #[trigger]
        m.contains_key(j) ==> j <= k
}

/// `r` is the smallest key of `m` (`None` for an empty map).
pub open spec fn is_min_key(m: Map<u64, u64>, r: Option<u64>) -> bool {
    &&& r is None <==> m.dom().is_empty()
    &&& r matches Some(k) ==> m.contains_key(k) && forall|j: u64| #[trigger]
        m.contains_key(j) ==> k <= j
}

/// Every bid is at or below every ask.
pub open spec fn not_crossed(bids: Map<u64, u64>, asks: Map<u64, u64>) -> bool {
    forall|b: u64, a: u64| #[trigger] bids.contains_key(b) && #[trigger] asks.contains_key(a) ==> b <= a
}

/// The levels of `r` as `(price, quantity)` pairs.
pub open spec fn level_pairs(r: Seq<PriceLevel>) -> Seq<(u64, u64)> {
    r.map_values(|l: PriceLevel| (l.price, l.quantity))
}

proof fn lemma_apply_levels_positive(m: Map<u64, u64>, lv: Seq<(String, String)>, snapshot: bool)
    requires
        positive_levels(m),
    ensures
        positive_levels(apply_levels(m, lv, snapshot).0),
        apply_levels(m, lv, snapshot).1 matches Some(i) ==> 0 <= i < lv.len() && level_ticks(
            lv[i],
        ) is None,
    decreases lv.len(),
{
    if lv.len() > 0 {
        lemma_apply_levels_positive(m, lv.drop_last(), snapshot);
    }
}

/// Apply text levels to one side of the book.
fn apply_side(m: &mut BTreeMap<u64, u64>, levels: &[(String, String)], snapshot: bool) -> (r:
    Result<(), OrderBookError>)
    requires
        positive_levels(old(m)@),
    ensures
        final(m)@ == apply_levels(old(m)@, levels@, snapshot).0,
        positive_levels(final(m)@),
        match apply_levels(old(m)@, levels@, snapshot).1 {
            None => r is Ok,
            Some(i) => r == Err::<(), OrderBookError>(level_error(levels@[i])),
        },
{
    let ghost m0 = m@;
    let mut i: usize = 0;
    while i < levels.len()
        invariant
            i <= levels@.len(),
            positive_levels(m@),
            m@ == apply_levels(m0, levels@.take(i as int), snapshot).0,
            apply_levels(m0, levels@.take(i as int), snapshot).1 is None,
            positive_levels(m0),
            m0 == old(m)@,
        decreases levels@.len() - i,
    {
        proof {
            assert(levels@.take(i + 1).drop_last() =~= levels@.take(i as int));
            assert(levels@.take(i + 1).last() == levels@[i as int]);
        }
        let price = match price_str_to_ticks(levels[i].0.as_str()) {
            Ok(p) => p,
            Err(_) => {
                proof {
                    assert(level_ticks(levels@[i as int]) is None);
                    assert(apply_levels(m0, levels@.take(i + 1), snapshot).1 == Some(i as int));
                    lemma_apply_levels_prefix(m0, levels@, snapshot, i as int + 1);
                }
                return Err(OrderBookError::InvalidPriceLevel(levels[i].0.clone()));
            },
        };
        let qty = match quantity_str_to_ticks(levels[i].1.as_str()) {
            Ok(q) => q,
            Err(_) => {
                proof {
                    assert(level_ticks(levels@[i as int]) is None);
                    assert(apply_levels(m0, levels@.take(i + 1), snapshot).1 == Some(i as int));
                    lemma_apply_levels_prefix(m0, levels@, snapshot, i as int + 1);
                }
                return Err(OrderBookError::InvalidPriceLevel(levels[i].1.clone()));
            },
        };
        if qty == 0 {
            if !snapshot {
                m.remove(&price);
            }
        } else {
            m.insert(price, qty);
        }
        i = i + 1;
    }
    proof {
        assert(levels@.take(levels@.len() as int) =~= levels@);
    }
    Ok(())
}

/// Once a prefix of the levels stops at a bad pair, the whole sequence stops there.
proof fn lemma_apply_levels_prefix(
    m: Map<u64, u64>,
    lv: Seq<(String, String)>,
    snapshot: bool,
    k: int,
)
    requires
        0 <= k <= lv.len(),
        apply_levels(m, lv.take(k), snapshot).1 is Some,
    ensures
        apply_levels(m, lv, snapshot) == apply_levels(m, lv.take(k), snapshot),
    decreases lv.len() - k,
{
    if k < lv.len() {
        assert(lv.take(k + 1).drop_last() =~= lv.take(k));
        lemma_apply_levels_prefix(m, lv, snapshot, k + 1);
    } else {
        assert(lv.take(k) =~= lv);
    }
}

/// Abstract state of an [`OrderBook`].
pub struct BookModel {
    /// Bid quantities keyed by price.
    pub bids: Map<u64, u64>,
    /// Ask quantities keyed by price.
    pub asks: Map<u64, u64>,
    pub last_update_id: u64,
    /// Whether a snapshot has been applied.
    pub initialized: bool,
}

/// The book and result of applying a snapshot to `o`.
pub open spec fn snapshot_outcome(
    o: BookModel,
    bids: Seq<(String, String)>,
    asks: Seq<(String, String)>,
    last_update_id: u64,
) -> (BookModel, Result<(), OrderBookError>) {
    let b = apply_levels(Map::empty(), bids, true);
    let a = apply_levels(Map::empty(), asks, true);
    match b.1 {
        Some(i) => (BookModel { bids: b.0, asks: Map::empty(), ..o }, Err(level_error(bids[i]))),
        None => match a.1 {
            Some(i) => (BookModel { bids: b.0, asks: a.0, ..o }, Err(level_error(asks[i]))),
            None => (
                BookModel { bids: b.0, asks: a.0, last_update_id, initialized: true },
                Ok(()),
            ),
        },
    }
}

/// The book and result of applying a depth update to `o`.
pub open spec fn update_outcome(
    o: BookModel,
    bids: Seq<(String, String)>,
    asks: Seq<(String, String)>,
    update_id: u64,
) -> (BookModel, Result<(), OrderBookError>) {
    let b = apply_levels(o.bids, bids, false);
    let a = apply_levels(o.asks, asks, false);
    if !o.initialized {
        (o, Err(OrderBookError::SnapshotRequired))
    } else {
        match b.1 {
            Some(i) => (BookModel { bids: b.0, ..o }, Err(level_error(bids[i]))),
            None => match a.1 {
                Some(i) => (BookModel { bids: b.0, asks: a.0, ..o }, Err(level_error(asks[i]))),
                None => (BookModel { bids: b.0, asks: a.0, last_update_id: update_id, ..o }, Ok(())),
            },
        }
    }
}

/// A violated order-book invariant.
#[derive(Debug, Clone, Copy, PartialEq, Eq, Structural)]
pub enum BookInvariantError {
    /// A bid level holds zero quantity.
    ZeroQuantityBid { price: u64 },
    /// An ask level holds zero quantity.
    ZeroQuantityAsk { price: u64 },
    /// The best bid is at or above the best ask.
    Crossed { best_bid: u64, best_ask: u64 },
}

/// The local order book.
///
/// Both sides are maps from price tick to quantity tick; the best bid is
/// the largest bid price and the best ask the smallest ask price.
/// The whole book at one moment: every level of each side, best first, the
/// best prices and the last applied update id.
#[derive(Debug, Clone)]
pub struct OrderBookSnapshot {
    pub bids: Vec<PriceLevel>,
    pub asks: Vec<PriceLevel>,
    pub last_update_id: u64,
    pub best_bid: Option<u64>,
    pub best_ask: Option<u64>,
}

#[derive(Debug)]
pub struct OrderBook {
    bids: BTreeMap<u64, u64>,
    asks: BTreeMap<u64, u64>,
    last_update_id: u64,
    initialized: bool,
}

impl View for OrderBook {
    type V = BookModel;

    closed spec fn view(&self) -> BookModel {
        BookModel {
            bids: self.bids@,
            asks: self.asks@,
            last_update_id: self.last_update_id,
            initialized: self.initialized,
        }
    }
}

impl OrderBook {
    #[verifier::type_invariant]
    spec fn inv(self) -> bool {
        positive_levels(self.bids@) && positive_levels(self.asks@)
    }

    pub fn new() -> (r: Self)
        ensures
            r@ == (BookModel {
                bids: Map::empty(),
                asks: Map::empty(),
                last_update_id: 0,
                initialized: false,
            }),
    {
        OrderBook {
            bids: BTreeMap::new(),
            asks: BTreeMap::new(),
            last_update_id: 0,
            initialized: false,
        }
    }

    /// Reset the book to the empty, uninitialized state.
    pub fn clear(&mut self)
        ensures
            final(self)@ == (BookModel {
                bids: Map::empty(),
                asks: Map::empty(),
                last_update_id: 0,
                initialized: false,
            }),
    {
        proof {
            use_type_invariant(&*self);
        }
        self.bids = BTreeMap::new();
        self.asks = BTreeMap::new();
        self.last_update_id = 0;
        self.initialized = false;
    }

    /// Replace all state from a REST snapshot.
    ///
    /// Zero-quantity levels are skipped. On a pair that does not parse the
    /// error names its text; the book then holds the levels applied before it
    /// and keeps its update id and initialized flag.
    pub fn apply_snapshot(
        &mut self,
        bids: &[(String, String)],
        asks: &[(String, String)],
        last_update_id: u64,
    ) -> (r: Result<(), OrderBookError>)
        ensures
            positive_levels(final(self)@.bids) && positive_levels(final(self)@.asks),
            (final(self)@, r) == snapshot_outcome(old(self)@, bids@, asks@, last_update_id),
            ({
                let o = old(self)@;
                let f = final(self)@;
                let b = apply_levels(Map::empty(), bids@, true);
                let a = apply_levels(Map::empty(), asks@, true);
                match b.1 {
                    Some(i) => {
                        &&& r == Err::<(), OrderBookError>(level_error(bids@[i]))
                        &&& f == BookModel { bids: b.0, asks: Map::empty(), ..o }
                    },
                    None => match a.1 {
                        Some(i) => {
                            &&& r == Err::<(), OrderBookError>(level_error(asks@[i]))
                            &&& f == BookModel { bids: b.0, asks: a.0, ..o }
                        },
                        None => {
                            &&& r is Ok
                            &&& f == BookModel {
                                bids: b.0,
                                asks: a.0,
                                last_update_id,
                                initialized: true,
                            }
                        },
                    },
                }
            }),
    {
        proof {
            use_type_invariant(&*self);
        }
        self.bids = BTreeMap::new();
        self.asks = BTreeMap::new();
        let mut new_bids = BTreeMap::new();
        let rb = apply_side(&mut new_bids, bids, true);
        self.bids = new_bids;
        if rb.is_err() {
            return rb;
        }
        let mut new_asks = BTreeMap::new();
        let ra = apply_side(&mut new_asks, asks, true);
        self.asks = new_asks;
        if ra.is_err() {
            return ra;
        }
        self.last_update_id = last_update_id;
        self.initialized = true;
        Ok(())
    }

    /// Apply a depth update: absolute quantities per price; zero removes.
    ///
    /// Requires an applied snapshot. On a pair that does not parse the error
    /// names its text; the levels before it stay applied and the update id
    /// is kept.
    pub fn apply_depth_update(
        &mut self,
        bids: &[(String, String)],
        asks: &[(String, String)],
        update_id: u64,
    ) -> (r: Result<(), OrderBookError>)
        ensures
            positive_levels(final(self)@.bids) && positive_levels(final(self)@.asks),
            (final(self)@, r) == update_outcome(old(self)@, bids@, asks@, update_id),
            ({
                let o = old(self)@;
                let f = final(self)@;
                let b = apply_levels(o.bids, bids@, false);
                let a = apply_levels(o.asks, asks@, false);
                if !o.initialized {
                    &&& r == Err::<(), OrderBookError>(OrderBookError::SnapshotRequired)
                    &&& f == o
                } else {
                    match b.1 {
                        Some(i) => {
                            &&& r == Err::<(), OrderBookError>(level_error(bids@[i]))
                            &&& f == BookModel { bids: b.0, ..o }
                        },
                        None => match a.1 {
                            Some(i) => {
                                &&& r == Err::<(), OrderBookError>(level_error(asks@[i]))
                                &&& f == BookModel { bids: b.0, asks: a.0, ..o }
                            },
                            None => {
                                &&& r is Ok
                                &&& f == BookModel {
                                    bids: b.0,
                                    asks: a.0,
                                    last_update_id: update_id,
                                    ..o
                                }
                            },
                        },
                    }
                }
            }),
    {
        proof {
            use_type_invariant(&*self);
        }
        if !self.initialized {
            return Err(OrderBookError::SnapshotRequired);
        }
        let mut side = BTreeMap::new();
        std::mem::swap(&mut side, &mut self.bids);
        let rb = apply_side(&mut side, bids, false);
        self.bids = side;
        if rb.is_err() {
            return rb;
        }
        let mut side = BTreeMap::new();
        std::mem::swap(&mut side, &mut self.asks);
        let ra = apply_side(&mut side, asks, false);
        self.asks = side;
        if ra.is_err() {
            return ra;
        }
        self.last_update_id = update_id;
        Ok(())
    }

    /// The best (highest) bid price.
    pub fn best_bid(&self) -> (r: Option<u64>)
        ensures
            is_max_key(self@.bids, r),
    {
        max_key(&self.bids)
    }

    /// The best (lowest) ask price.
    pub fn best_ask(&self) -> (r: Option<u64>)
        ensures
            is_min_key(self@.asks, r),
    {
        min_key(&self.asks)
    }

    /// Spread in price ticks: best ask minus best bid.
    pub fn spread(&self) -> (r: Option<u64>)
        requires
            not_crossed(self@.bids, self@.asks),
        ensures
            match r {
                Some(s) => exists|b: u64, a: u64|
                    is_max_key(self@.bids, Some(b)) && is_min_key(self@.asks, Some(a)) && s == a
                        - b,
                None => self@.bids.dom().is_empty() || self@.asks.dom().is_empty(),
            },
    {
        let bid = match self.best_bid() {
            Some(b) => b,
            None => return None,
        };
        let ask = match self.best_ask() {
            Some(a) => a,
            None => return None,
        };
        Some(ask - bid)
    }

    /// Number of bid levels.
    pub fn bid_count(&self) -> (r: usize)
        ensures
            r == self@.bids.len(),
    {
        self.bids.len()
    }

    /// Number of ask levels.
    pub fn ask_count(&self) -> (r: usize)
        ensures
            r == self@.asks.len(),
    {
        self.asks.len()
    }

    /// Every level of the book, best first on each side.
    pub fn snapshot(&self) -> (r: OrderBookSnapshot)
        ensures
            is_top_desc(self@.bids, level_pairs(r.bids@), self@.bids.len()),
            is_top_asc(self@.asks, level_pairs(r.asks@), self@.asks.len()),
            r.last_update_id == self@.last_update_id,
            is_max_key(self@.bids, r.best_bid),
            is_min_key(self@.asks, r.best_ask),
    {
        OrderBookSnapshot {
            bids: self.bid_levels(self.bid_count()),
            asks: self.ask_levels(self.ask_count()),
            last_update_id: self.last_update_id,
            best_bid: self.best_bid(),
            best_ask: self.best_ask(),
        }
    }

    /// The top `n` bid levels, best (highest price) first.
    pub fn bid_levels(&self, n: usize) -> (r: Vec<PriceLevel>)
        ensures
            is_top_desc(self@.bids, level_pairs(r@), n as nat),
    {
        let pairs = top_desc(&self.bids, n);
        to_levels(&pairs)
    }

    /// The top `n` ask levels, best (lowest price) first.
    pub fn ask_levels(&self, n: usize) -> (r: Vec<PriceLevel>)
        ensures
            is_top_asc(self@.asks, level_pairs(r@), n as nat),
    {
        let pairs = top_asc(&self.asks, n);
        to_levels(&pairs)
    }

    pub fn last_update_id(&self) -> (r: u64)
        ensures
            r == self@.last_update_id,
    {
        self.last_update_id
    }

    /// Set the last update id (used by the synchronizer).
    pub fn set_last_update_id(&mut self, id: u64)
        ensures
            final(self)@ == (BookModel { last_update_id: id, ..old(self)@ }),
    {
        proof {
            use_type_invariant(&*self);
        }
        self.last_update_id = id;
    }

    /// Whether a snapshot has been applied.
    pub fn is_initialized(&self) -> (r: bool)
        ensures
            r == self@.initialized,
    {
        self.initialized
    }

    pub fn set_initialized(&mut self, val: bool)
        ensures
            final(self)@ == (BookModel { initialized: val, ..old(self)@ }),
    {
        proof {
            use_type_invariant(&*self);
        }
        self.initialized = val;
    }

    /// Check the book invariants: no zero-quantity level and, when both sides
    /// are non-empty, best bid strictly below best ask.
    pub fn verify_invariants(&self) -> (r: Result<(), BookInvariantError>)
        ensures
            positive_levels(self@.bids),
            positive_levels(self@.asks),
            r is Ok <==> (positive_levels(self@.bids) && positive_levels(self@.asks) && forall|
                b: u64,
                a: u64,
            | #[trigger] self@.bids.contains_key(b) && #[trigger] self@.asks.contains_key(a) ==> b
                < a),
            r matches Err(e) ==> (e matches BookInvariantError::Crossed { best_bid, best_ask }
                && is_max_key(self@.bids, Some(best_bid)) && is_min_key(
                self@.asks,
                Some(best_ask),
            ) && best_bid >= best_ask),
    {
        proof {
            use_type_invariant(self);
        }
        match (self.best_bid(), self.best_ask()) {
            (Some(bid), Some(ask)) => {
                if bid >= ask {
                    return Err(BookInvariantError::Crossed { best_bid: bid, best_ask: ask });
                }
                Ok(())
            },
            _ => Ok(()),
        }
    }
}

/// Convert `(price, quantity)` pairs to price levels.
fn to_levels(pairs: &Vec<(u64, u64)>) -> (r: Vec<PriceLevel>)
    ensures
        level_pairs(r@) == pairs@,
{
    let mut out: Vec<PriceLevel> = Vec::new();
    let mut i: usize = 0;
    while i < pairs.len()
        invariant
            i <= pairs@.len(),
            out@.len() == i,
            forall|j: int| 0 <= j < i ==> #[trigger] out@[j].price == pairs@[j].0 && out@[j].quantity == pairs@[j].1,
        decreases pairs@.len() - i,
    {
        out.push(PriceLevel::new(pairs[i].0, pairs[i].1));
        i = i + 1;
    }
    assert(level_pairs(out@) =~= pairs@);
    out
}

} // verus!
