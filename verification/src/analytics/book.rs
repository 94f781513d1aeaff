//! Shadow order book kept by the analytics engine.
//!
//! The shadow book derives old quantities from its own state, so every
//! liquidity delta it reports is exact and the same stream always yields the
//! same changes.
use std::collections::BTreeMap;
use vstd::prelude::*;

use crate::orderbook::book::{is_max_key, is_min_key};
use crate::ordered_map::{
    is_top_asc, is_top_desc, max_key, min_key, sum_entry_values, sum_values, top_asc, top_desc,
};

verus! {

broadcast use vstd::std_specs::btree::group_btree_axioms, vstd::laws_cmp::group_laws_cmp;

/// Order-book side.
#[derive(Debug, Clone, Copy, PartialEq, Eq, Structural, PartialOrd, Ord, Hash)]
pub enum BookSide {
    Bid,
    Ask,
}

/// Display label of a book side.
pub open spec fn book_side_label(s: BookSide) -> Seq<char> {
    match s {
        BookSide::Bid => seq!['B', 'I', 'D'],
        BookSide::Ask => seq!['A', 'S', 'K'],
    }
}

impl BookSide {
    /// "BID" or "ASK".
    pub fn as_str(self) -> (r: &'static str)
        ensures
            r@ == book_side_label(self),
    {
        match self {
            BookSide::Bid => {
                proof {
                    reveal_strlit("BID");
                }
                "BID"
            },
            BookSide::Ask => {
                proof {
                    reveal_strlit("ASK");
                }
                "ASK"
            },
        }
    }
}

/// One price-level change derived from a book update.
#[derive(Debug, Clone, Copy, PartialEq, Eq, Structural)]
pub struct LevelChange {
    pub side: BookSide,
    pub price: u64,
    /// Previous displayed quantity (`None` if the level did not exist).
    pub old_qty: Option<u64>,
    /// New displayed quantity (0 removes the level).
    pub new_qty: u64,
}

/// The signed quantity change of a level change.
pub open spec fn change_delta(c: LevelChange) -> int {
    c.new_qty - (match c.old_qty {
        Some(o) => o as int,
        None => 0int,
    })
}

impl LevelChange {
    /// New quantity minus old quantity (a missing level counts as zero).
    pub fn delta_ticks(&self) -> (r: i128)
        ensures
            r == change_delta(*self),
    {
        let old: u64 = match self.old_qty {
            Some(o) => o,
            None => 0,
        };
        self.new_qty as i128 - old as i128
    }
}

/// Exact microprice as the rational `num / den` in price ticks.
#[derive(Debug, Clone, Copy, PartialEq, Eq, Structural)]
pub struct Microprice {
    pub num: u128,
    pub den: u128,
}

impl Microprice {
    /// A microprice, or `None` for a zero denominator.
    pub fn new(num: u128, den: u128) -> (r: Option<Self>)
        ensures
            den == 0 ==> r is None,
            den != 0 ==> r == Some(Microprice { num, den }),
    {
        if den == 0 {
            return None;
        }
        Some(Microprice { num, den })
    }
}

/// Abstract state of a [`ShadowBook`].
pub struct ShadowModel {
    pub bids: Map<u64, u64>,
    pub asks: Map<u64, u64>,
    pub ready: bool,
    pub last_update_id: Option<u64>,
    pub crossed_count: u64,
    pub invalid_levels_rejected: u64,
}

/// One side after loading snapshot levels: zero quantities are skipped.
pub open spec fn snapshot_side(lv: Seq<(u64, u64)>) -> Map<u64, u64>
    decreases lv.len(),
{
    if lv.len() == 0 {
        Map::empty()
    } else {
        let prev = snapshot_side(lv.drop_last());
        if lv.last().1 > 0 {
            prev.insert(lv.last().0, lv.last().1)
        } else {
            prev
        }
    }
}

/// Number of zero-quantity levels in a snapshot side.
pub open spec fn zero_levels(lv: Seq<(u64, u64)>) -> nat
    decreases lv.len(),
{
    if lv.len() == 0 {
        0
    } else {
        zero_levels(lv.drop_last()) + if lv.last().1 == 0 {
            1nat
        } else {
            0nat
        }
    }
}

/// One side after an update, with the changes it reports.
///
/// Each `(price, quantity, hint)` sets the level (zero removes it); the
/// quantity hint is ignored. A change is reported when the old quantity
/// differs from the new one.
pub open spec fn update_side(
    m: Map<u64, u64>,
    ch: Seq<(u64, u64, Option<u64>)>,
    side: BookSide,
) -> (Map<u64, u64>, Seq<LevelChange>)
    decreases ch.len(),
{
    if ch.len() == 0 {
        (m, Seq::empty())
    } else {
        let prev = update_side(m, ch.drop_last(), side);
        let p = ch.last().0;
        let q = ch.last().1;
        let old = if prev.0.contains_key(p) {
            Some(prev.0[p])
        } else {
            None
        };
        let next = if q == 0 {
            prev.0.remove(p)
        } else {
            prev.0.insert(p, q)
        };
        let out = if old != Some(q) {
            prev.1.push(LevelChange { side, price: p, old_qty: old, new_qty: q })
        } else {
            prev.1
        };
        (next, out)
    }
}

/// The best bid is at or above the best ask.
pub open spec fn crossed(bids: Map<u64, u64>, asks: Map<u64, u64>) -> bool {
    exists|b: u64, a: u64| is_max_key(bids, Some(b)) && is_min_key(asks, Some(a)) && b >= a
}

/// The exact microprice of best levels `b`/`a` with quantities `bq`/`aq`.
pub open spec fn microprice_num(b: u64, a: u64, bq: u64, aq: u64) -> int {
    a * bq + b * aq
}

/// The microprice numerator of the book fits in a `u128`.
pub open spec fn microprice_fits(bids: Map<u64, u64>, asks: Map<u64, u64>) -> bool {
    forall|b: u64, a: u64|
        is_max_key(bids, Some(b)) && is_min_key(asks, Some(a)) ==> microprice_num(
            b,
            a,
            bids[b],
            asks[a],
        ) <= u128::MAX
}

/// The top `n` levels of each side sum to values that fit in a `u64`.
pub open spec fn depth_fits(bids: Map<u64, u64>, asks: Map<u64, u64>, n: nat) -> bool {
    &&& forall|r: Seq<(u64, u64)>| is_top_desc(bids, r, n) ==> sum_values(r) <= u64::MAX
    &&& forall|r: Seq<(u64, u64)>| is_top_asc(asks, r, n) ==> sum_values(r) <= u64::MAX
}

/// The sum of the values of `r`.
fn sum_pairs(r: &Vec<(u64, u64)>) -> (s: u128)
    requires
        r.len() <= u32::MAX,
    ensures
        s == sum_values(r@),
{
    let mut s: u128 = 0;
    let mut i: usize = 0;
    while i < r.len()
        invariant
            i <= r.len() <= u32::MAX,
            s == sum_values(r@.take(i as int)),
            s <= i * 0xFFFF_FFFF_FFFF_FFFFu128,
        decreases r.len() - i,
    {
        proof {
            assert(r@.take(i + 1).drop_last() =~= r@.take(i as int));
            assert(s + 0xFFFF_FFFF_FFFF_FFFFu128 <= (i + 1) * 0xFFFF_FFFF_FFFF_FFFFu128) by (nonlinear_arith)
                requires
                    s <= i * 0xFFFF_FFFF_FFFF_FFFFu128,
            ;
            assert((i + 1) * 0xFFFF_FFFF_FFFF_FFFFu128 <= 0x1_0000_0000 * 0xFFFF_FFFF_FFFF_FFFFu128) by (nonlinear_arith)
                requires
                    i + 1 <= 0x1_0000_0000,
            ;
        }
        s = s + r[i].1 as u128;
        i = i + 1;
    }
    proof {
        assert(r@.take(r.len() as int) =~= r@);
    }
    s
}

/// The analytics engine's own view of the book.
#[derive(Debug, Clone)]
pub struct ShadowBook {
    bids: BTreeMap<u64, u64>,
    asks: BTreeMap<u64, u64>,
    ready: bool,
    last_update_id: Option<u64>,
    crossed_count: u64,
    invalid_levels_rejected: u64,
}

impl View for ShadowBook {
    type V = ShadowModel;

    closed spec fn view(&self) -> ShadowModel {
        ShadowModel {
            bids: self.bids@,
            asks: self.asks@,
            ready: self.ready,
            last_update_id: self.last_update_id,
            crossed_count: self.crossed_count,
            invalid_levels_rejected: self.invalid_levels_rejected,
        }
    }
}

fn load_side(m: &mut BTreeMap<u64, u64>, levels: &[(u64, u64)]) -> (zeros: u64)
    requires
        old(m)@ == Map::<u64, u64>::empty(),
        zero_levels(levels@) <= u64::MAX,
    ensures
        final(m)@ == snapshot_side(levels@),
        zeros == zero_levels(levels@),
{
    let mut zeros: u64 = 0;
    let mut i: usize = 0;
    while i < levels.len()
        invariant
            i <= levels@.len(),
            m@ == snapshot_side(levels@.take(i as int)),
            zeros == zero_levels(levels@.take(i as int)),
            zero_levels(levels@) <= u64::MAX,
        decreases levels@.len() - i,
    {
        proof {
            assert(levels@.take(i + 1).drop_last() =~= levels@.take(i as int));
            lemma_zero_levels_prefix(levels@, i + 1);
        }
        let (price, qty) = levels[i];
        if qty > 0 {
            m.insert(price, qty);
        } else {
            zeros = zeros + 1;
        }
        i = i + 1;
    }
    proof {
        assert(levels@.take(levels@.len() as int) =~= levels@);
    }
    zeros
}

proof fn lemma_zero_levels_prefix(lv: Seq<(u64, u64)>, k: int)
    requires
        0 <= k <= lv.len(),
    ensures
        zero_levels(lv.take(k)) <= zero_levels(lv),
    decreases lv.len() - k,
{
    if k < lv.len() {
        lemma_zero_levels_prefix(lv, k + 1);
        assert(lv.take(k + 1).drop_last() =~= lv.take(k));
    } else {
        assert(lv.take(k) =~= lv);
    }
}

fn update_levels(
    m: &mut BTreeMap<u64, u64>,
    changes: &[(u64, u64, Option<u64>)],
    side: BookSide,
    out: &mut Vec<LevelChange>,
)
    ensures
        final(m)@ == update_side(old(m)@, changes@, side).0,
        final(out)@ == old(out)@ + update_side(old(m)@, changes@, side).1,
{
    let ghost m0 = m@;
    let ghost out0 = out@;
    let mut i: usize = 0;
    while i < changes.len()
        invariant
            i <= changes@.len(),
            m@ == update_side(m0, changes@.take(i as int), side).0,
            out@ == out0 + update_side(m0, changes@.take(i as int), side).1,
        decreases changes@.len() - i,
    {
        proof {
            assert(changes@.take(i + 1).drop_last() =~= changes@.take(i as int));
        }
        let (price, qty, _) = changes[i];
        let old: Option<u64> = match m.get(&price) {
            Some(v) => Some(*v),
            None => None,
        };
        if qty == 0 {
            m.remove(&price);
        } else {
            m.insert(price, qty);
        }
        let differs = match old {
            Some(o) => o != qty,
            None => true,
        };
        if differs {
            out.push(LevelChange { side, price, old_qty: old, new_qty: qty });
        }
        proof {
            let ghost prev = update_side(m0, changes@.take(i as int), side);
            assert(out@ =~= out0 + update_side(m0, changes@.take(i + 1), side).1);
        }
        i = i + 1;
    }
    proof {
        assert(changes@.take(changes@.len() as int) =~= changes@);
    }
}

impl ShadowBook {
    pub fn new() -> (r: Self)
        ensures
            r@ == (ShadowModel {
                bids: Map::empty(),
                asks: Map::empty(),
                ready: false,
                last_update_id: None,
                crossed_count: 0,
                invalid_levels_rejected: 0,
            }),
    {
        ShadowBook {
            bids: BTreeMap::new(),
            asks: BTreeMap::new(),
            ready: false,
            last_update_id: None,
            crossed_count: 0,
            invalid_levels_rejected: 0,
        }
    }

    /// Replace all state from a full snapshot; zero-quantity levels are
    /// dropped and counted as rejected.
    pub fn apply_snapshot(&mut self, bids: &[(u64, u64)], asks: &[(u64, u64)], update_id: u64)
        requires
            old(self)@.invalid_levels_rejected + zero_levels(bids@) + zero_levels(asks@)
                <= u64::MAX,
        ensures
            final(self)@ == (ShadowModel {
                bids: snapshot_side(bids@),
                asks: snapshot_side(asks@),
                ready: true,
                last_update_id: Some(update_id),
                invalid_levels_rejected: (old(self)@.invalid_levels_rejected + zero_levels(bids@)
                    + zero_levels(asks@)) as u64,
                ..old(self)@
            }),
    {
        self.bids.clear();
        self.asks.clear();
        let zb = load_side(&mut self.bids, bids);
        let za = load_side(&mut self.asks, asks);
        self.invalid_levels_rejected = self.invalid_levels_rejected + zb + za;
        self.last_update_id = Some(update_id);
        self.ready = true;
    }

    /// Apply a diff update and report each level whose quantity changed,
    /// bids first, in input order. Quantity hints are ignored: old
    /// quantities come from the shadow book itself.
    pub fn apply_update(
        &mut self,
        bid_changes: &[(u64, u64, Option<u64>)],
        ask_changes: &[(u64, u64, Option<u64>)],
        update_id: u64,
    ) -> (r: Vec<LevelChange>)
        ensures
            final(self)@ == (ShadowModel {
                bids: update_side(old(self)@.bids, bid_changes@, BookSide::Bid).0,
                asks: update_side(old(self)@.asks, ask_changes@, BookSide::Ask).0,
                last_update_id: Some(update_id),
                ..old(self)@
            }),
            r@ == update_side(old(self)@.bids, bid_changes@, BookSide::Bid).1 + update_side(
                old(self)@.asks,
                ask_changes@,
                BookSide::Ask,
            ).1,
    {
        let mut out: Vec<LevelChange> = Vec::new();
        update_levels(&mut self.bids, bid_changes, BookSide::Bid, &mut out);
        update_levels(&mut self.asks, ask_changes, BookSide::Ask, &mut out);
        self.last_update_id = Some(update_id);
        assert(out@ =~= update_side(old(self)@.bids, bid_changes@, BookSide::Bid).1 + update_side(
            old(self)@.asks,
            ask_changes@,
            BookSide::Ask,
        ).1);
        out
    }

    pub fn best_bid(&self) -> (r: Option<u64>)
        ensures
            is_max_key(self@.bids, r),
    {
        max_key(&self.bids)
    }

    pub fn best_ask(&self) -> (r: Option<u64>)
        ensures
            is_min_key(self@.asks, r),
    {
        min_key(&self.asks)
    }

    /// Whether the best bid is at or above the best ask.
    pub fn is_crossed(&self) -> (r: bool)
        ensures
            r == crossed(self@.bids, self@.asks),
    {
        match (self.best_bid(), self.best_ask()) {
            (Some(b), Some(a)) => b >= a,
            _ => false,
        }
    }

    /// Best ask minus best bid; `None` when a side is empty or the book is crossed.
    pub fn spread_ticks(&self) -> (r: Option<u64>)
        ensures
            match r {
                Some(s) => exists|b: u64, a: u64|
                    is_max_key(self@.bids, Some(b)) && is_min_key(self@.asks, Some(a)) && b < a
                        && s == a - b,
                None => self@.bids.dom().is_empty() || self@.asks.dom().is_empty() || crossed(
                    self@.bids,
                    self@.asks,
                ),
            },
    {
        if self.is_crossed() {
            return None;
        }
        let bid = match self.best_bid() {
            Some(b) => b,
            None => return None,
        };
        let ask = match self.best_ask() {
            Some(a) => a,
            None => return None,
        };
        Some(ask - bid)
    }

    /// Sum of the quantities of the top `depth` levels of each side.
    /// The quantities of the top `depth` levels of each side, summed, or
    /// `None` when a sum does not fit in a `u64`.
    pub fn depth_sums(&self, depth: u32) -> (r: Option<(u64, u64)>)
        ensures
            r matches Some((b, a)) ==> exists|rb: Seq<(u64, u64)>, ra: Seq<(u64, u64)>|
                is_top_desc(self@.bids, rb, depth as nat) && is_top_asc(self@.asks, ra, depth as nat)
                    && b == sum_values(rb) && a == sum_values(ra),
            r is None ==> exists|rb: Seq<(u64, u64)>, ra: Seq<(u64, u64)>|
                is_top_desc(self@.bids, rb, depth as nat) && is_top_asc(self@.asks, ra, depth as nat)
                    && (sum_values(rb) > u64::MAX || sum_values(ra) > u64::MAX),
    {
        let top_b = top_desc(&self.bids, depth as usize);
        let top_a = top_asc(&self.asks, depth as usize);
        let sb = sum_pairs(&top_b);
        let sa = sum_pairs(&top_a);
        if sb > u64::MAX as u128 || sa > u64::MAX as u128 {
            None
        } else {
            Some((sb as u64, sa as u64))
        }
    }

    pub fn depth_volume(&self, depth: u32) -> (r: (u64, u64))
        requires
            depth_fits(self@.bids, self@.asks, depth as nat),
        ensures
            exists|rb: Seq<(u64, u64)>, ra: Seq<(u64, u64)>|
                is_top_desc(self@.bids, rb, depth as nat) && is_top_asc(
                    self@.asks,
                    ra,
                    depth as nat,
                ) && r == (sum_values(rb) as u64, sum_values(ra) as u64),
    {
        let top_b = top_desc(&self.bids, depth as usize);
        let top_a = top_asc(&self.asks, depth as usize);
        let b = sum_entry_values(&top_b);
        let a = sum_entry_values(&top_a);
        (b, a)
    }

    /// Exact microprice `(ask * bid_qty + bid * ask_qty) / (bid_qty + ask_qty)`
    /// of the best levels; `None` when not ready, crossed, or a side is empty.
    pub fn microprice(&self) -> (r: Option<Microprice>)
        requires
            microprice_fits(self@.bids, self@.asks),
        ensures
            match r {
                Some(mp) => self@.ready && !crossed(self@.bids, self@.asks) && exists|
                    b: u64,
                    a: u64,
                |
                    is_max_key(self@.bids, Some(b)) && is_min_key(self@.asks, Some(a)) && mp.num
                        == microprice_num(b, a, self@.bids[b], self@.asks[a]) && mp.den
                        == self@.bids[b] + self@.asks[a] && mp.den != 0,
                None => !self@.ready || crossed(self@.bids, self@.asks)
                    || self@.bids.dom().is_empty() || self@.asks.dom().is_empty() || exists|
                    b: u64,
                    a: u64,
                |
                    is_max_key(self@.bids, Some(b)) && is_min_key(self@.asks, Some(a))
                        && self@.bids[b] + self@.asks[a] == 0,
            },
    {
        if !self.ready || self.is_crossed() {
            return None;
        }
        let bid = match self.best_bid() {
            Some(b) => b,
            None => return None,
        };
        let ask = match self.best_ask() {
            Some(a) => a,
            None => return None,
        };
        let bid_qty = match self.bids.get(&bid) {
            Some(q) => *q,
            None => return None,
        };
        let ask_qty = match self.asks.get(&ask) {
            Some(q) => *q,
            None => return None,
        };
        let den = bid_qty as u128 + ask_qty as u128;
        assert(microprice_num(bid, ask, bid_qty, ask_qty) <= u128::MAX);
        assert(ask as u128 * bid_qty as u128 <= u128::MAX) by (nonlinear_arith)
            requires
                ask * bid_qty + bid * ask_qty <= u128::MAX,
                0 <= bid * ask_qty,
        ;
        let num = (ask as u128) * (bid_qty as u128) + (bid as u128) * (ask_qty as u128);
        Microprice::new(num, den)
    }

    /// Displayed quantity at a price on a side (0 when absent).
    pub fn quantity_at(&self, side: BookSide, price: u64) -> (r: u64)
        ensures
            ({
                let m = if side == BookSide::Bid {
                    self@.bids
                } else {
                    self@.asks
                };
                r == if m.contains_key(price) {
                    m[price]
                } else {
                    0
                }
            }),
    {
        let q = match side {
            BookSide::Bid => self.bids.get(&price),
            BookSide::Ask => self.asks.get(&price),
        };
        match q {
            Some(v) => *v,
            None => 0,
        }
    }

    pub fn is_ready(&self) -> (r: bool)
        ensures
            r == self@.ready,
    {
        self.ready
    }

    /// Set the ready flag; clearing it also empties both sides.
    pub fn set_ready(&mut self, ready: bool)
        ensures
            final(self)@ == (if ready {
                ShadowModel { ready: true, ..old(self)@ }
            } else {
                ShadowModel { ready: false, bids: Map::empty(), asks: Map::empty(), ..old(self)@ }
            }),
    {
        self.ready = ready;
        if !ready {
            self.bids.clear();
            self.asks.clear();
        }
    }

    pub fn last_update_id(&self) -> (r: Option<u64>)
        ensures
            r == self@.last_update_id,
    {
        self.last_update_id
    }

    pub fn crossed_count(&self) -> (r: u64)
        ensures
            r == self@.crossed_count,
    {
        self.crossed_count
    }

    /// Count one observed crossed state; returns the new total.
    pub fn record_crossed(&mut self) -> (r: u64)
        requires
            old(self)@.crossed_count < u64::MAX,
        ensures
            final(self)@ == (ShadowModel {
                crossed_count: (old(self)@.crossed_count + 1) as u64,
                ..old(self)@
            }),
            r == final(self)@.crossed_count,
    {
        self.crossed_count = self.crossed_count + 1;
        self.crossed_count
    }

    pub fn invalid_levels_rejected(&self) -> (r: u64)
        ensures
            r == self@.invalid_levels_rejected,
    {
        self.invalid_levels_rejected
    }

    /// All bid levels, best (highest) first.
    pub fn bid_levels(&self) -> (r: Vec<(u64, u64)>)
        ensures
            is_top_desc(self@.bids, r@, self@.bids.len()),
    {
        let n = self.bids.len();
        top_desc(&self.bids, n)
    }

    /// All ask levels, best (lowest) first.
    pub fn ask_levels(&self) -> (r: Vec<(u64, u64)>)
        ensures
            is_top_asc(self@.asks, r@, self@.asks.len()),
    {
        let n = self.asks.len();
        top_asc(&self.asks, n)
    }

    /// The top `n` bid levels, best first.
    pub fn bid_levels_top(&self, n: usize) -> (r: Vec<(u64, u64)>)
        ensures
            is_top_desc(self@.bids, r@, n as nat),
    {
        top_desc(&self.bids, n)
    }

    /// The top `n` ask levels, best first.
    pub fn ask_levels_top(&self, n: usize) -> (r: Vec<(u64, u64)>)
        ensures
            is_top_asc(self@.asks, r@, n as nat),
    {
        top_asc(&self.asks, n)
    }
}

} // verus!
