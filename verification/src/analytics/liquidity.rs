//! Liquidity tracking: additions and removals of displayed quantity,
//! per-level persistence, and replenishment candidates.
//!
//! A displayed-quantity decrease does not prove that a trade consumed the
//! liquidity (it may be a cancellation); only displayed changes are observed.
//! A decrease followed by an increase at the same level within the
//! replenishment window is a replenishment *candidate*: hidden order structure
//! cannot be derived from public data.
use std::collections::{BTreeMap, VecDeque};
use vstd::prelude::*;

use crate::analytics::book::{book_side_label, BookSide, LevelChange};
use crate::analytics::config::AnalyticsConfig;
use crate::analytics::events::{event_fields, AnalyticsEvent, AnalyticsEventKind};
use crate::ordered_map::{is_sorted_keys, pair_map_keys};

verus! {

broadcast use vstd::std_specs::btree::group_btree_axioms, vstd::laws_cmp::group_laws_cmp,
    vstd::std_specs::vecdeque::group_vec_dequeue_axioms;

/// Classified outcome of a level change.
#[derive(Debug, Clone, Copy, PartialEq, Eq, Structural)]
pub enum LiquidityChangeKind {
    Added,
    Removed,
    Increased,
    Decreased,
    Unchanged,
}

/// How a change from `old` to `new` is classified.
pub open spec fn classify_spec(old: Option<u64>, new: u64) -> LiquidityChangeKind {
    match old {
        None => if new == 0 {
            LiquidityChangeKind::Unchanged
        } else {
            LiquidityChangeKind::Added
        },
        Some(o) => if o == new {
            LiquidityChangeKind::Unchanged
        } else if new == 0 {
            LiquidityChangeKind::Removed
        } else if new > o {
            LiquidityChangeKind::Increased
        } else {
            LiquidityChangeKind::Decreased
        },
    }
}

/// The lower-case name of a change kind.
pub open spec fn change_kind_name(k: LiquidityChangeKind) -> Seq<char> {
    match k {
        LiquidityChangeKind::Added => "added"@,
        LiquidityChangeKind::Removed => "removed"@,
        LiquidityChangeKind::Increased => "increased"@,
        LiquidityChangeKind::Decreased => "decreased"@,
        LiquidityChangeKind::Unchanged => "unchanged"@,
    }
}

impl LiquidityChangeKind {
    /// Classify a change from `old` (absent = no level) to `new`.
    pub fn classify(old: Option<u64>, new: u64) -> (r: Self)
        ensures
            r == classify_spec(old, new),
    {
        match old {
            None => if new == 0 {
                LiquidityChangeKind::Unchanged
            } else {
                LiquidityChangeKind::Added
            },
            Some(o) => if o == new {
                LiquidityChangeKind::Unchanged
            } else if new == 0 {
                LiquidityChangeKind::Removed
            } else if new > o {
                LiquidityChangeKind::Increased
            } else {
                LiquidityChangeKind::Decreased
            },
        }
    }

    pub fn as_str(self) -> (r: &'static str)
        ensures
            r@ == change_kind_name(self),
    {
        match self {
            LiquidityChangeKind::Added => "added",
            LiquidityChangeKind::Removed => "removed",
            LiquidityChangeKind::Increased => "increased",
            LiquidityChangeKind::Decreased => "decreased",
            LiquidityChangeKind::Unchanged => "unchanged",
        }
    }
}

/// Lifetime record of one price level.
#[derive(Debug, Clone, Copy, PartialEq, Eq, Structural)]
pub struct LevelPersistence {
    pub side: BookSide,
    pub price: u64,
    pub created_at: u64,
    pub last_seen_at: u64,
    pub peak_quantity: u64,
    pub current_quantity: u64,
}

/// Abstract state of a [`LiquidityTracker`].
pub struct LiquidityModel {
    pub added: u64,
    pub removed: u64,
    pub replenishments: u64,
    /// Persistence records keyed by (side code, price).
    pub levels: Map<(u64, u64), LevelPersistence>,
    /// Recent decreases `(time, new quantity)` per level, oldest first.
    pub decreases: Map<(u64, u64), Seq<(u64, u64)>>,
    pub window_ms: u64,
    pub retention_ms: u64,
}

/// The key of a side: bids order before asks.
pub open spec fn side_code(s: BookSide) -> u64 {
    match s {
        BookSide::Bid => 0,
        BookSide::Ask => 1,
    }
}

pub open spec fn level_key(c: LevelChange) -> (u64, u64) {
    (side_code(c.side), c.price)
}

pub open spec fn old_or_zero(c: LevelChange) -> u64 {
    match c.old_qty {
        Some(o) => o,
        None => 0,
    }
}

/// Liquidity a change adds (for additions and increases).
pub open spec fn added_amount(c: LevelChange) -> nat {
    match classify_spec(c.old_qty, c.new_qty) {
        LiquidityChangeKind::Added => c.new_qty as nat,
        LiquidityChangeKind::Increased => (c.new_qty - old_or_zero(c)) as nat,
        _ => 0,
    }
}

/// Liquidity a change removes (for removals and decreases).
pub open spec fn removed_amount(c: LevelChange) -> nat {
    match classify_spec(c.old_qty, c.new_qty) {
        LiquidityChangeKind::Removed => old_or_zero(c) as nat,
        LiquidityChangeKind::Decreased => (old_or_zero(c) - c.new_qty) as nat,
        _ => 0,
    }
}

/// The event kind reported for a (changed) level.
pub open spec fn change_event_kind(k: LiquidityChangeKind) -> AnalyticsEventKind {
    match k {
        LiquidityChangeKind::Added => AnalyticsEventKind::LiquidityAdded,
        LiquidityChangeKind::Removed => AnalyticsEventKind::LiquidityRemoved,
        LiquidityChangeKind::Increased => AnalyticsEventKind::LiquidityIncreased,
        _ => AnalyticsEventKind::LiquidityDecreased,
    }
}

/// `i` is the first recorded decrease still within `w` ms of `ts`.
pub open spec fn is_first_within(s: Seq<(u64, u64)>, ts: u64, w: u64, i: int) -> bool {
    &&& 0 <= i < s.len()
    &&& ts <= s[i].0 + w
    &&& forall|j: int| 0 <= j < i ==> ts > #[trigger] s[j].0 + w
}

pub open spec fn has_within(s: Seq<(u64, u64)>, ts: u64, w: u64) -> bool {
    exists|i: int| 0 <= i < s.len() && ts <= #[trigger] s[i].0 + w
}

/// Decrease histories after recording a decrease of `c` at `ts`.
pub open spec fn after_decrease(d: Map<(u64, u64), Seq<(u64, u64)>>, c: LevelChange, ts: u64) -> Map<
    (u64, u64),
    Seq<(u64, u64)>,
> {
    if classify_spec(c.old_qty, c.new_qty) == LiquidityChangeKind::Decreased {
        let s = if d.contains_key(level_key(c)) {
            d[level_key(c)]
        } else {
            Seq::empty()
        };
        d.insert(level_key(c), s.push((ts, c.new_qty)))
    } else {
        d
    }
}

/// An increase of `c` at `ts` follows a recorded decrease within the window.
pub open spec fn is_replenishment(
    d: Map<(u64, u64), Seq<(u64, u64)>>,
    c: LevelChange,
    ts: u64,
    w: u64,
) -> bool {
    &&& c.new_qty > old_or_zero(c)
    &&& d.contains_key(level_key(c))
    &&& has_within(d[level_key(c)], ts, w)
}

/// Decrease histories after consuming the first matching decrease, if any.
pub open spec fn after_replenishment(
    d: Map<(u64, u64), Seq<(u64, u64)>>,
    c: LevelChange,
    ts: u64,
    w: u64,
) -> Map<(u64, u64), Seq<(u64, u64)>> {
    if is_replenishment(d, c, ts, w) {
        let s = d[level_key(c)];
        let i = choose|i: int| is_first_within(s, ts, w, i);
        d.insert(level_key(c), s.remove(i))
    } else {
        d
    }
}

/// Persistence records after seeing `c` at `ts`.
pub open spec fn after_persistence(
    levels: Map<(u64, u64), LevelPersistence>,
    c: LevelChange,
    ts: u64,
) -> Map<(u64, u64), LevelPersistence> {
    let key = level_key(c);
    if levels.contains_key(key) {
        let r = levels[key];
        levels.insert(
            key,
            LevelPersistence {
                last_seen_at: ts,
                current_quantity: c.new_qty,
                peak_quantity: if c.new_qty > r.peak_quantity {
                    c.new_qty
                } else {
                    r.peak_quantity
                },
                ..r
            },
        )
    } else {
        levels.insert(
            key,
            LevelPersistence {
                side: c.side,
                price: c.price,
                created_at: ts,
                last_seen_at: ts,
                peak_quantity: c.new_qty,
                current_quantity: c.new_qty,
            },
        )
    }
}

/// A level no longer displayed and not seen since before `cutoff`.
pub open spec fn is_stale(r: LevelPersistence, cutoff: int) -> bool {
    r.last_seen_at < cutoff && r.current_quantity == 0
}

/// A decrease history with entries older than the window (relative to `now`)
/// dropped from the front.
pub open spec fn trim_front(s: Seq<(u64, u64)>, now: u64, w: u64) -> Seq<(u64, u64)>
    decreases s.len(),
{
    if s.len() > 0 && s[0].0 + w < now {
        trim_front(s.drop_first(), now, w)
    } else {
        s
    }
}

/// `k` occurs among the first `i` entries of `s`.
pub open spec fn in_prefix(s: Seq<(u64, u64)>, i: int, k: (u64, u64)) -> bool {
    exists|j: int| 0 <= j < i && #[trigger] s[j] == k
}

proof fn lemma_prefix_step(s: Seq<(u64, u64)>, i: int)
    requires
        0 <= i < s.len(),
        forall|a: int, b: int| 0 <= a < b < s.len() ==> crate::ordered_map::key_lt(s[a], s[b]),
    ensures
        forall|x: (u64, u64)| #[trigger] in_prefix(s, i + 1, x) <==> in_prefix(s, i, x) || x == s[i],
        !in_prefix(s, i, s[i]),
{
    assert forall|x: (u64, u64)| #[trigger] in_prefix(s, i + 1, x) <==> in_prefix(s, i, x) || x == s[i] by {
        if x == s[i] {
            assert(s[i] == x);
        }
    }
    if in_prefix(s, i, s[i]) {
        let j = choose|j: int| 0 <= j < i && #[trigger] s[j] == s[i];
        assert(crate::ordered_map::key_lt(s[j], s[i]));
    }
}

/// A decrease at a level followed, within the window, by an increase at the
/// same level is a replenishment candidate.
pub proof fn lemma_decrease_then_increase(
    d: Map<(u64, u64), Seq<(u64, u64)>>,
    dec: LevelChange,
    t1: u64,
    inc: LevelChange,
    t2: u64,
    w: u64,
)
    requires
        classify_spec(dec.old_qty, dec.new_qty) == LiquidityChangeKind::Decreased,
        level_key(inc) == level_key(dec),
        inc.new_qty > old_or_zero(inc),
        t2 <= t1 + w,
    ensures
        is_replenishment(after_decrease(d, dec, t1), inc, t2, w),
{
    let d1 = after_decrease(d, dec, t1);
    let s = d1[level_key(dec)];
    assert(s[s.len() - 1] == (t1, dec.new_qty));
    assert(t2 <= s[s.len() - 1].0 + w);
}

/// Liquidity analytics state.
pub struct LiquidityTracker {
    /// Cumulative liquidity added (ticks) since the last interval reset.
    added_ticks: u64,
    /// Cumulative liquidity removed (ticks) since the last interval reset.
    removed_ticks: u64,
    levels: BTreeMap<(u64, u64), LevelPersistence>,
    recent_decreases: BTreeMap<(u64, u64), VecDeque<(u64, u64)>>,
    /// Number of replenishment candidates detected in the session.
    replenishment_count: u64,
    replenishment_window_ms: u64,
    retention_ms: u64,
}

impl View for LiquidityTracker {
    type V = LiquidityModel;

    closed spec fn view(&self) -> LiquidityModel {
        LiquidityModel {
            added: self.added_ticks,
            removed: self.removed_ticks,
            replenishments: self.replenishment_count,
            levels: self.levels@,
            decreases: self.recent_decreases@.map_values(|d: VecDeque<(u64, u64)>| d@),
            window_ms: self.replenishment_window_ms,
            retention_ms: self.retention_ms,
        }
    }
}

fn side_key(side: BookSide) -> (r: u64)
    ensures
        r == side_code(side),
{
    match side {
        BookSide::Bid => 0,
        BookSide::Ask => 1,
    }
}

fn liquidity_event(kind: AnalyticsEventKind, ts: u64, change: &LevelChange, quantity: u64) -> (r:
    AnalyticsEvent)
    ensures
        event_fields(
            r,
            kind,
            ts,
            "BTCUSDT"@,
            book_side_label(change.side),
            change.price,
            quantity,
        ),
{
    AnalyticsEvent::new(kind, ts, "BTCUSDT").with_side(change.side.as_str()).with_price(
        change.price,
    ).with_quantity(quantity)
}

/// Index of the first decrease within `w` ms of `ts`.
fn first_within(d: &VecDeque<(u64, u64)>, ts: u64, w: u64) -> (r: Option<usize>)
    ensures
        match r {
            Some(i) => is_first_within(d@, ts, w, i as int),
            None => !has_within(d@, ts, w),
        },
{
    let mut i: usize = 0;
    while i < d.len()
        invariant
            i <= d@.len(),
            forall|j: int| 0 <= j < i ==> ts > #[trigger] d@[j].0 + w,
        decreases d@.len() - i,
    {
        let (dts, _) = d[i];
        if (ts as u128) <= (dts as u128) + (w as u128) {
            return Some(i);
        }
        i = i + 1;
    }
    None
}

impl LiquidityTracker {
    pub fn new(cfg: &AnalyticsConfig) -> (r: Self)
        ensures
            r@ == (LiquidityModel {
                added: 0,
                removed: 0,
                replenishments: 0,
                levels: Map::empty(),
                decreases: Map::empty(),
                window_ms: cfg.replenishment_window_ms,
                retention_ms: cfg.retention_ms,
            }),
    {
        let r = LiquidityTracker {
            added_ticks: 0,
            removed_ticks: 0,
            levels: BTreeMap::new(),
            recent_decreases: BTreeMap::new(),
            replenishment_count: 0,
            replenishment_window_ms: cfg.replenishment_window_ms,
            retention_ms: cfg.retention_ms,
        };
        assert(r@.decreases =~= Map::empty());
        r
    }

    /// Reset the interval counters.
    pub fn reset_interval(&mut self)
        ensures
            final(self)@ == (LiquidityModel { added: 0, removed: 0, ..old(self)@ }),
    {
        self.added_ticks = 0;
        self.removed_ticks = 0;
    }

    /// Clear all level state and the interval counters.
    pub fn clear(&mut self)
        ensures
            final(self)@ == (LiquidityModel {
                added: 0,
                removed: 0,
                levels: Map::empty(),
                decreases: Map::empty(),
                ..old(self)@
            }),
    {
        self.levels.clear();
        self.recent_decreases.clear();
        self.added_ticks = 0;
        self.removed_ticks = 0;
        assert(self@.decreases =~= Map::empty());
    }

    /// Whether the change `c` at `ts` would be reported as a replenishment:
    /// an increase with a recorded decrease at its level within the window.
    pub fn would_replenish(&self, c: &LevelChange, ts: u64) -> (r: bool)
        ensures
            r == (classify_spec(c.old_qty, c.new_qty) != LiquidityChangeKind::Unchanged
                && is_replenishment(
                after_decrease(self@.decreases, *c, ts),
                *c,
                ts,
                self@.window_ms,
            )),
    {
        let old_qty: u64 = match c.old_qty {
            Some(o) => o,
            None => 0,
        };
        if c.new_qty <= old_qty {
            return false;
        }
        assert(classify_spec(c.old_qty, c.new_qty) != LiquidityChangeKind::Decreased);
        assert(after_decrease(self@.decreases, *c, ts) == self@.decreases);
        let key = (side_key(c.side), c.price);
        match self.recent_decreases.get(&key) {
            Some(dq) => {
                assert(self@.decreases[key] == dq@);
                match first_within(dq, ts, self.replenishment_window_ms) {
                    Some(_) => true,
                    None => false,
                }
            },
            None => false,
        }
    }

    /// Process one level change at exchange time `ts`; returns the events it
    /// produced: the change itself and, when an increase follows a recent
    /// decrease at the same level, a replenishment candidate.
    pub fn on_level_change(&mut self, change: &LevelChange, ts: u64) -> (r: Vec<AnalyticsEvent>)
        requires
            old(self)@.added + added_amount(*change) <= u64::MAX,
            old(self)@.removed + removed_amount(*change) <= u64::MAX,
            classify_spec(change.old_qty, change.new_qty) != LiquidityChangeKind::Unchanged
                && is_replenishment(
                after_decrease(old(self)@.decreases, *change, ts),
                *change,
                ts,
                old(self)@.window_ms,
            ) ==> old(self)@.replenishments < u64::MAX,
        ensures
            ({
                let o = old(self)@;
                let f = final(self)@;
                let c = *change;
                let kind = classify_spec(c.old_qty, c.new_qty);
                let d1 = after_decrease(o.decreases, c, ts);
                let rep = is_replenishment(d1, c, ts, o.window_ms);
                if kind == LiquidityChangeKind::Unchanged {
                    f == o && r@.len() == 0
                } else {
                    &&& f.added == o.added + added_amount(c)
                    &&& f.removed == o.removed + removed_amount(c)
                    &&& f.replenishments == o.replenishments + if rep {
                        1int
                    } else {
                        0int
                    }
                    &&& f.decreases == after_replenishment(d1, c, ts, o.window_ms)
                    &&& f.levels == after_persistence(o.levels, c, ts)
                    &&& f.window_ms == o.window_ms
                    &&& f.retention_ms == o.retention_ms
                    &&& r@.len() == if rep {
                        2int
                    } else {
                        1int
                    }
                    &&& event_fields(
                        r@[0],
                        change_event_kind(kind),
                        ts,
                        "BTCUSDT"@,
                        book_side_label(c.side),
                        c.price,
                        (added_amount(c) + removed_amount(c)) as u64,
                    )
                    &&& rep ==> event_fields(
                        r@[1],
                        AnalyticsEventKind::LiquidityReplenishment,
                        ts,
                        "BTCUSDT"@,
                        book_side_label(c.side),
                        c.price,
                        c.new_qty,
                    )
                }
            }),
    {
        let ghost o = self@;
        let mut out: Vec<AnalyticsEvent> = Vec::new();
        let key = (side_key(change.side), change.price);
        let old = change.old_qty;
        let new = change.new_qty;
        let old_qty: u64 = match old {
            Some(o) => o,
            None => 0,
        };
        let kind = LiquidityChangeKind::classify(old, new);
        match kind {
            LiquidityChangeKind::Unchanged => {
                return out;
            },
            LiquidityChangeKind::Added => {
                self.added_ticks = self.added_ticks + new;
                out.push(liquidity_event(AnalyticsEventKind::LiquidityAdded, ts, change, new));
            },
            LiquidityChangeKind::Removed => {
                self.removed_ticks = self.removed_ticks + old_qty;
                out.push(
                    liquidity_event(AnalyticsEventKind::LiquidityRemoved, ts, change, old_qty),
                );
            },
            LiquidityChangeKind::Increased => {
                let added = new - old_qty;
                self.added_ticks = self.added_ticks + added;
                out.push(liquidity_event(AnalyticsEventKind::LiquidityIncreased, ts, change, added));
            },
            LiquidityChangeKind::Decreased => {
                let removed = old_qty - new;
                self.removed_ticks = self.removed_ticks + removed;
                let mut dq = match self.recent_decreases.remove(&key) {
                    Some(d) => d,
                    None => VecDeque::new(),
                };
                dq.push_back((ts, new));
                self.recent_decreases.insert(key, dq);
                out.push(
                    liquidity_event(AnalyticsEventKind::LiquidityDecreased, ts, change, removed),
                );
            },
        }
        proof {
            assert(self@.decreases =~= after_decrease(o.decreases, *change, ts));
        }
        let ghost d1 = self@.decreases;
        if new > old_qty {
            match self.recent_decreases.remove(&key) {
                Some(dq) => {
                    let mut dq = dq;
                    match first_within(&dq, ts, self.replenishment_window_ms) {
                        Some(i) => {
                            proof {
                                let s = d1[key];
                                assert(has_within(s, ts, o.window_ms));
                                let c = choose|j: int| is_first_within(s, ts, o.window_ms, j);
                                assert(c == i as int) by {
                                    if c < i {
                                        assert(ts > s[c].0 + o.window_ms);
                                    } else if c > i {
                                        assert(ts > s[i as int].0 + o.window_ms);
                                    }
                                }
                            }
                            dq.remove(i);
                            self.replenishment_count = self.replenishment_count + 1;
                            out.push(
                                liquidity_event(
                                    AnalyticsEventKind::LiquidityReplenishment,
                                    ts,
                                    change,
                                    new,
                                ),
                            );
                        },
                        None => {},
                    }
                    self.recent_decreases.insert(key, dq);
                },
                None => {},
            }
        }
        proof {
            assert(self@.decreases =~= after_replenishment(d1, *change, ts, o.window_ms));
        }
        let rec = match self.levels.get(&key) {
            Some(r) => LevelPersistence {
                last_seen_at: ts,
                current_quantity: new,
                peak_quantity: if new > r.peak_quantity {
                    new
                } else {
                    r.peak_quantity
                },
                ..*r
            },
            None => LevelPersistence {
                side: change.side,
                price: change.price,
                created_at: ts,
                last_seen_at: ts,
                peak_quantity: new,
                current_quantity: new,
            },
        };
        self.levels.insert(key, rec);
        out
    }

    /// Drop the records of levels that are no longer displayed and were last
    /// seen before `now_ms - retention` (with their decrease histories), then
    /// drop decreases older than the replenishment window.
    pub fn prune(&mut self, now_ms: u64)
        ensures
            ({
                let o = old(self)@;
                let f = final(self)@;
                let cutoff = if now_ms >= o.retention_ms {
                    now_ms - o.retention_ms
                } else {
                    0
                };
                &&& forall|k: (u64, u64)| #[trigger]
                    f.levels.contains_key(k) <==> o.levels.contains_key(k) && !is_stale(
                        o.levels[k],
                        cutoff,
                    )
                &&& forall|k: (u64, u64)| #[trigger]
                    f.levels.contains_key(k) ==> f.levels[k] == o.levels[k]
                &&& forall|k: (u64, u64)| #[trigger]
                    f.decreases.contains_key(k) <==> o.decreases.contains_key(k) && !(
                    o.levels.contains_key(k) && is_stale(o.levels[k], cutoff))
                &&& forall|k: (u64, u64)| #[trigger]
                    f.decreases.contains_key(k) ==> f.decreases[k] == trim_front(
                        o.decreases[k],
                        now_ms,
                        o.window_ms,
                    )
                &&& f.added == o.added && f.removed == o.removed
                &&& f.replenishments == o.replenishments
                &&& f.window_ms == o.window_ms && f.retention_ms == o.retention_ms
            }),
    {
        let ghost o = self@;
        let cutoff: u64 = if now_ms >= self.retention_ms {
            now_ms - self.retention_ms
        } else {
            0
        };
        let keys = pair_map_keys(&self.levels);
        let mut i: usize = 0;
        while i < keys.len()
            invariant
                is_sorted_keys(o.levels, keys@),
                i <= keys@.len(),
                self.added_ticks == o.added && self.removed_ticks == o.removed,
                self.replenishment_count == o.replenishments,
                self.replenishment_window_ms == o.window_ms,
                self.retention_ms == o.retention_ms,
                cutoff == (if now_ms >= o.retention_ms {
                    now_ms - o.retention_ms
                } else {
                    0
                }),
                forall|k: (u64, u64)| #[trigger]
                    self@.levels.contains_key(k) <==> o.levels.contains_key(k) && !(
                    in_prefix(keys@, i as int, k) && is_stale(o.levels[k], cutoff as int)),
                forall|k: (u64, u64)| #[trigger]
                    self@.levels.contains_key(k) ==> self@.levels[k] == o.levels[k],
                forall|k: (u64, u64)| #[trigger]
                    self@.decreases.contains_key(k) <==> o.decreases.contains_key(k) && !(
                    in_prefix(keys@, i as int, k) && o.levels.contains_key(k) && is_stale(
                        o.levels[k],
                        cutoff as int,
                    )),
                forall|k: (u64, u64)| #[trigger]
                    self@.decreases.contains_key(k) ==> self@.decreases[k] == o.decreases[k],
            decreases keys@.len() - i,
        {
            let k = keys[i];
            proof {
                lemma_prefix_step(keys@, i as int);
                assert(o.levels.contains_key(k));
            }
            assert(self@.levels.contains_key(k));
            assert(self@.levels[k] == o.levels[k]);
            let stale = match self.levels.get(&k) {
                Some(rec) => rec.last_seen_at < cutoff && rec.current_quantity == 0,
                None => false,
            };
            let ghost before = self@;
            if stale {
                self.levels.remove(&k);
                self.recent_decreases.remove(&k);
                proof {
                    assert(self@.levels =~= before.levels.remove(k));
                    assert(self@.decreases =~= before.decreases.remove(k));
                }
            }
            proof {
                assert(stale == is_stale(o.levels[k], cutoff as int));
            }
            i = i + 1;
        }
        let ghost mid = self@;
        let dkeys = pair_map_keys(&self.recent_decreases);
        let window = self.replenishment_window_ms;
        let mut j: usize = 0;
        while j < dkeys.len()
            invariant
                is_sorted_keys(mid.decreases, dkeys@),
                j <= dkeys@.len(),
                window == o.window_ms,
                self.added_ticks == o.added && self.removed_ticks == o.removed,
                self.replenishment_count == o.replenishments,
                self.replenishment_window_ms == o.window_ms,
                self.retention_ms == o.retention_ms,
                self@.levels == mid.levels,
                forall|k: (u64, u64)| #[trigger]
                    self@.decreases.contains_key(k) <==> mid.decreases.contains_key(k),
                forall|k: (u64, u64)| #[trigger]
                    self@.decreases.contains_key(k) ==> self@.decreases[k] == if in_prefix(dkeys@, j as int, k) {
                        trim_front(mid.decreases[k], now_ms, window)
                    } else {
                        mid.decreases[k]
                    },
            decreases dkeys@.len() - j,
        {
            let k = dkeys[j];
            proof {
                lemma_prefix_step(dkeys@, j as int);
                assert(mid.decreases.contains_key(k));
            }
            let ghost before = self@;
            let ghost raw = self.recent_decreases@;
            assert(before.decreases.contains_key(k));
            assert(before.decreases[k] == mid.decreases[k]);
            match self.recent_decreases.remove(&k) {
                Some(dq) => {
                    let mut dq = dq;
                    assert(dq@ == before.decreases[k]);
                    trim_decreases(&mut dq, now_ms, window);
                    let ghost trimmed = dq@;
                    self.recent_decreases.insert(k, dq);
                    proof {
                        assert(self.recent_decreases@ =~= raw.remove(k).insert(k, dq));
                        assert(trimmed == trim_front(mid.decreases[k], now_ms, window));
                        assert(self@.decreases =~= before.decreases.insert(
                            k,
                            trim_front(mid.decreases[k], now_ms, window),
                        ));
                    }
                },
                None => {},
            }
            j = j + 1;
        }
        proof {
            assert forall|k: (u64, u64)| #[trigger] self@.decreases.contains_key(k) implies in_prefix(dkeys@, dkeys@.len() as int, k) by {
                assert(dkeys@.contains(k));
            }
        }
    }

    /// Liquidity added since the last interval reset, in ticks.
    pub fn added_ticks(&self) -> (r: u64)
        ensures
            r == self@.added,
    {
        self.added_ticks
    }

    /// Liquidity removed since the last interval reset, in ticks.
    pub fn removed_ticks(&self) -> (r: u64)
        ensures
            r == self@.removed,
    {
        self.removed_ticks
    }

    /// Replenishment candidates detected in the session.
    pub fn replenishment_count(&self) -> (r: u64)
        ensures
            r == self@.replenishments,
    {
        self.replenishment_count
    }

    /// Number of tracked levels.
    pub fn level_count(&self) -> (r: usize)
        ensures
            r == self@.levels.len(),
    {
        self.levels.len()
    }

    /// The persistence records, in (side, price) order: bids before asks,
    /// each by increasing price.
    pub fn persistence(&self) -> (r: Vec<LevelPersistence>)
        ensures
            exists|ks: Seq<(u64, u64)>|
                is_sorted_keys(self@.levels, ks) && r@.len() == ks.len() && forall|i: int|
                    0 <= i < ks.len() ==> #[trigger] r@[i] == self@.levels[ks[i]],
    {
        let keys = pair_map_keys(&self.levels);
        let mut out: Vec<LevelPersistence> = Vec::new();
        let mut i: usize = 0;
        while i < keys.len()
            invariant
                is_sorted_keys(self@.levels, keys@),
                i <= keys@.len(),
                out@.len() == i,
                forall|j: int| 0 <= j < i ==> #[trigger] out@[j] == self@.levels[keys@[j]],
            decreases keys@.len() - i,
        {
            let k = keys[i];
            assert(self@.levels.contains_key(k));
            match self.levels.get(&k) {
                Some(rec) => out.push(*rec),
                None => {},
            }
            i = i + 1;
        }
        out
    }
}

/// Drop decreases older than the window from the front of a history.
fn trim_decreases(dq: &mut VecDeque<(u64, u64)>, now_ms: u64, w: u64)
    ensures
        final(dq)@ == trim_front(old(dq)@, now_ms, w),
{
    loop
        invariant
            trim_front(dq@, now_ms, w) == trim_front(old(dq)@, now_ms, w),
        ensures
            dq@ == trim_front(old(dq)@, now_ms, w),
        decreases dq@.len(),
    {
        if dq.len() == 0 {
            break;
        }
        let (dts, _) = dq[0];
        if (dts as u128) + (w as u128) < (now_ms as u128) {
            let ghost before = dq@;
            dq.pop_front();
            assert(dq@ =~= before.drop_first());
        } else {
            break;
        }
    }
}

} // verus!
