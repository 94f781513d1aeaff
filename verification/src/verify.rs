//! Data-quality audit of a recorded session: unparsable payloads, repeated
//! trade ids, marker rows stored as trades, rows of another symbol,
//! repeated depth identities and depth events whose final update id does not
//! increase.
use std::collections::BTreeMap;
use vstd::prelude::*;

use crate::binance::types::str_equal;
use crate::ordered_map::{is_sorted_u64_keys, u64_map_keys};
use crate::recording::session::SessionRecord;
use crate::storage::{LevelChangeRow, RawEventRow, TradeRow};

verus! {

broadcast use vstd::std_specs::btree::group_btree_axioms, vstd::laws_cmp::group_laws_cmp;

/// Whether `serde_json::from_str` parses `s` as a JSON value.
pub uninterp spec fn is_json_text(s: Seq<char>) -> bool;

/// `serde_json::from_str::<serde_json::Value>` succeeds on `s`; the answer is
/// named by `is_json_text`.
#[verifier::external_body]
fn parses_as_json(s: &str) -> (r: bool)
    ensures
        r == is_json_text(s@),
{
    serde_json::from_str::<serde_json::Value>(s).is_ok()
}

/// Result of an audit of a recorded session.
#[derive(Debug, Clone)]
pub struct VerifyReport {
    pub session: Option<SessionRecord>,
    pub raw_events: u64,
    pub raw_parse_errors: u64,
    pub trade_rows: u64,
    pub level_change_rows: u64,
    pub depth_events: u64,
    pub snapshots: u64,
    /// Trade ids that occur more than once, in increasing order.
    pub duplicate_trade_ids: Vec<u64>,
    /// Level-change rows whose `(final_update_id, side, price)` occurred
    /// in an earlier row.
    pub duplicate_depth_identities: u64,
    /// Trade ids of rows that look like markers (zero price or quantity, or
    /// order type "NA"), in row order.
    pub marker_as_trade_ids: Vec<u64>,
    /// Rows whose symbol differs from the session's.
    pub invalid_symbol_rows: u64,
    /// Depth events whose final update id does not exceed the previous
    /// event's.
    pub depth_sequence_anomalies: u64,
    /// No issue was found.
    pub verified: bool,
}

/// Number of raw payloads that do not parse as JSON.
pub open spec fn parse_errors(raw: Seq<RawEventRow>) -> nat
    decreases raw.len(),
{
    if raw.len() == 0 {
        0
    } else {
        parse_errors(raw.drop_last()) + if is_json_text(raw.last().raw_payload@) {
            0nat
        } else {
            1nat
        }
    }
}

/// Number of trade rows with id `id`.
pub open spec fn id_count(trades: Seq<TradeRow>, id: u64) -> nat
    decreases trades.len(),
{
    if trades.len() == 0 {
        0
    } else {
        id_count(trades.drop_last(), id) + if trades.last().trade_id == id {
            1nat
        } else {
            0nat
        }
    }
}

/// A trade row that looks like a marker event.
pub open spec fn is_marker_row(t: TradeRow) -> bool {
    t.price == 0 || t.quantity == 0 || t.order_type@ == "NA"@
}

/// Trade ids of the marker rows, in row order.
pub open spec fn marker_ids(trades: Seq<TradeRow>) -> Seq<u64>
    decreases trades.len(),
{
    if trades.len() == 0 {
        Seq::empty()
    } else {
        let prev = marker_ids(trades.drop_last());
        if is_marker_row(trades.last()) {
            prev.push(trades.last().trade_id)
        } else {
            prev
        }
    }
}

/// Number of trade rows whose symbol is not `sym`.
pub open spec fn foreign_trades(trades: Seq<TradeRow>, sym: Seq<char>) -> nat
    decreases trades.len(),
{
    if trades.len() == 0 {
        0
    } else {
        foreign_trades(trades.drop_last(), sym) + if trades.last().symbol@ != sym {
            1nat
        } else {
            0nat
        }
    }
}

/// Number of level rows whose symbol is not `sym`.
pub open spec fn foreign_levels(levels: Seq<LevelChangeRow>, sym: Seq<char>) -> nat
    decreases levels.len(),
{
    if levels.len() == 0 {
        0
    } else {
        foreign_levels(levels.drop_last(), sym) + if levels.last().symbol@ != sym {
            1nat
        } else {
            0nat
        }
    }
}

/// Two level rows with the same final update id, side and price.
pub open spec fn same_identity(a: LevelChangeRow, b: LevelChangeRow) -> bool {
    a.final_update_id == b.final_update_id && a.side@ == b.side@ && a.price == b.price
}

/// Number of level rows whose identity occurred in an earlier row.
pub open spec fn repeated_identities(levels: Seq<LevelChangeRow>) -> nat
    decreases levels.len(),
{
    if levels.len() == 0 {
        0
    } else {
        let n = levels.len() - 1;
        repeated_identities(levels.drop_last()) + if exists|j: int|
            0 <= j < n && #[trigger] same_identity(levels[j], levels[n]) {
            1nat
        } else {
            0nat
        }
    }
}

/// The final update id of each depth event (consecutive rows with the same
/// `seq`): the largest among its rows.
pub open spec fn event_finals(levels: Seq<LevelChangeRow>) -> Seq<u64>
    decreases levels.len(),
{
    if levels.len() == 0 {
        Seq::empty()
    } else {
        let prev = event_finals(levels.drop_last());
        let r = levels.last();
        if levels.len() >= 2 && levels[levels.len() - 2].seq == r.seq {
            let m = if r.final_update_id > prev.last() {
                r.final_update_id
            } else {
                prev.last()
            };
            prev.update(prev.len() - 1, m)
        } else {
            prev.push(r.final_update_id)
        }
    }
}

/// Number of events whose final update id does not exceed the previous
/// event's.
pub open spec fn non_increasing_steps(f: Seq<u64>) -> nat
    decreases f.len(),
{
    if f.len() < 2 {
        0
    } else {
        non_increasing_steps(f.drop_last()) + if f.last() <= f[f.len() - 2] {
            1nat
        } else {
            0nat
        }
    }
}

proof fn lemma_id_count_bound(trades: Seq<TradeRow>, id: u64)
    ensures
        id_count(trades, id) <= trades.len(),
    decreases trades.len(),
{
    if trades.len() > 0 {
        lemma_id_count_bound(trades.drop_last(), id);
    }
}

proof fn lemma_event_finals_len(levels: Seq<LevelChangeRow>)
    ensures
        levels.len() > 0 ==> event_finals(levels).len() > 0,
        event_finals(levels).len() <= levels.len(),
    decreases levels.len(),
{
    if levels.len() > 0 {
        lemma_event_finals_len(levels.drop_last());
    }
}

impl VerifyReport {
    /// Total number of issues.
    pub fn issues(&self) -> (r: usize)
        requires
            self.raw_parse_errors + self.duplicate_trade_ids@.len()
                + self.duplicate_depth_identities + self.marker_as_trade_ids@.len()
                + self.invalid_symbol_rows + self.depth_sequence_anomalies <= usize::MAX,
        ensures
            r == self.raw_parse_errors + self.duplicate_trade_ids@.len()
                + self.duplicate_depth_identities + self.marker_as_trade_ids@.len()
                + self.invalid_symbol_rows + self.depth_sequence_anomalies,
    {
        self.raw_parse_errors as usize + self.duplicate_trade_ids.len()
            + self.duplicate_depth_identities as usize + self.marker_as_trade_ids.len()
            + self.invalid_symbol_rows as usize + self.depth_sequence_anomalies as usize
    }
}

fn count_parse_errors(raw: &Vec<RawEventRow>) -> (r: u64)
    ensures
        r == parse_errors(raw@),
{
    let mut n: u64 = 0;
    let mut i: usize = 0;
    while i < raw.len()
        invariant
            i <= raw@.len(),
            n == parse_errors(raw@.take(i as int)),
            n <= i,
        decreases raw@.len() - i,
    {
        proof {
            assert(raw@.take(i + 1).drop_last() =~= raw@.take(i as int));
        }
        if !parses_as_json(raw[i].raw_payload.as_str()) {
            n = n + 1;
        }
        i = i + 1;
    }
    proof {
        assert(raw@.take(raw@.len() as int) =~= raw@);
    }
    n
}

/// Trade-table findings: repeated ids, marker ids, rows of another symbol.
fn audit_trades(trades: &Vec<TradeRow>, symbol: Option<&str>) -> (r: (Vec<u64>, Vec<u64>, u64))
    ensures
        forall|i: int, j: int| 0 <= i < j < r.0@.len() ==> r.0@[i] < r.0@[j],
        forall|id: u64| #[trigger] r.0@.contains(id) <==> id_count(trades@, id) > 1,
        r.1@ == marker_ids(trades@),
        r.2 <= trades@.len(),
        r.2 == match symbol {
            Some(s) => foreign_trades(trades@, s@),
            None => 0,
        },
{
    let mut counts: BTreeMap<u64, u64> = BTreeMap::new();
    let mut markers: Vec<u64> = Vec::new();
    let mut foreign: u64 = 0;
    let mut i: usize = 0;
    while i < trades.len()
        invariant
            i <= trades@.len(),
            forall|id: u64|
                #[trigger] counts@.contains_key(id) <==> id_count(trades@.take(i as int), id) > 0,
            forall|id: u64|
                #[trigger] counts@.contains_key(id) ==> counts@[id] == id_count(
                    trades@.take(i as int),
                    id,
                ),
            markers@ == marker_ids(trades@.take(i as int)),
            foreign <= i,
            foreign == match symbol {
                Some(s) => foreign_trades(trades@.take(i as int), s@),
                None => 0,
            },
        decreases trades@.len() - i,
    {
        let t = &trades[i];
        proof {
            assert(trades@.take(i + 1).drop_last() =~= trades@.take(i as int));
            assert(trades@.take(i + 1).last() == trades@[i as int]);
            lemma_id_count_bound(trades@.take(i as int), t.trade_id);
        }
        let c: u64 = match counts.get(&t.trade_id) {
            Some(c) => *c,
            None => 0,
        };
        counts.insert(t.trade_id, c + 1);
        if t.price == 0 || t.quantity == 0 || str_equal(t.order_type.as_str(), "NA") {
            markers.push(t.trade_id);
        }
        if let Some(s) = symbol {
            if !str_equal(t.symbol.as_str(), s) {
                foreign = foreign + 1;
            }
        }
        i = i + 1;
    }
    proof {
        assert(trades@.take(trades@.len() as int) =~= trades@);
    }
    let keys = u64_map_keys(&counts);
    let mut dups: Vec<u64> = Vec::new();
    let mut k: usize = 0;
    while k < keys.len()
        invariant
            k <= keys@.len(),
            is_sorted_u64_keys(counts@, keys@),
            forall|id: u64|
                #[trigger] counts@.contains_key(id) ==> counts@[id] == id_count(trades@, id),
            forall|id: u64| #[trigger] counts@.contains_key(id) <==> id_count(trades@, id) > 0,
            forall|a: int, b: int| 0 <= a < b < dups@.len() ==> dups@[a] < dups@[b],
            k < keys@.len() ==> forall|a: int| 0 <= a < dups@.len() ==> dups@[a] < keys@[k as int],
            forall|id: u64|
                #[trigger] dups@.contains(id) <==> (exists|j: int| 0 <= j < k && #[trigger] keys@[j] == id)
                    && id_count(trades@, id) > 1,
        decreases keys@.len() - k,
    {
        let id = keys[k];
        assert(counts@.contains_key(keys@[k as int]));
        let c = *counts.get(&id).unwrap();
        if c > 1 {
            let ghost before = dups@;
            dups.push(id);
            proof {
                assert forall|x: u64| #[trigger] dups@.contains(x) <==> (exists|j: int|
                    0 <= j < k + 1 && #[trigger] keys@[j] == x) && id_count(trades@, x) > 1 by {
                    if dups@.contains(x) && x != id {
                        assert(before.contains(x)) by {
                            let a = choose|a: int| 0 <= a < dups@.len() && dups@[a] == x;
                            assert(a < before.len());
                            assert(before[a] == x);
                        }
                    }
                    if x == id {
                        assert(dups@[before.len() as int] == x);
                    }
                    if (exists|j: int| 0 <= j < k && #[trigger] keys@[j] == x) && id_count(trades@, x) > 1 {
                        assert(before.contains(x));
                        let a = choose|a: int| 0 <= a < before.len() && before[a] == x;
                        assert(dups@[a] == x);
                    }
                }
                if k + 1 < keys@.len() {
                    assert(keys@[k as int] < keys@[k + 1]);
                }
            }
        } else {
            proof {
                if k + 1 < keys@.len() {
                    assert(keys@[k as int] < keys@[k + 1]);
                }
            }
            proof {
                assert forall|x: u64| #[trigger] dups@.contains(x) <==> (exists|j: int|
                    0 <= j < k + 1 && #[trigger] keys@[j] == x) && id_count(trades@, x) > 1 by {
                    if (exists|j: int| 0 <= j < k + 1 && #[trigger] keys@[j] == x) && id_count(trades@, x)
                        > 1 {
                        let j = choose|j: int| 0 <= j < k + 1 && #[trigger] keys@[j] == x;
                        if j == k {
                            assert(false);
                        }
                    }
                }
            }
        }
        k = k + 1;
    }
    proof {
        assert forall|id: u64| #[trigger] dups@.contains(id) <==> id_count(trades@, id) > 1 by {
            if id_count(trades@, id) > 1 {
                assert(counts@.contains_key(id));
                assert(keys@.contains(id));
                let j = choose|j: int| 0 <= j < keys@.len() && #[trigger] keys@[j] == id;
                assert(j < keys@.len());
            }
        }
    }
    (dups, markers, foreign)
}

/// Index of the first entry of `sides` with text `side` (or `sides.len()`).
fn side_index(sides: &Vec<String>, side: &str) -> (r: usize)
    ensures
        r <= sides@.len(),
        r < sides@.len() ==> sides@[r as int]@ == side@,
        forall|a: int| 0 <= a < r ==> sides@[a]@ != side@,
{
    let mut idx: usize = 0;
    while idx < sides.len()
        invariant
            idx <= sides@.len(),
            forall|a: int| 0 <= a < idx ==> sides@[a]@ != side@,
        decreases sides@.len() - idx,
    {
        if str_equal(sides[idx].as_str(), side) {
            return idx;
        }
        idx = idx + 1;
    }
    idx
}

/// Level-table findings: repeated identities and rows of another symbol.
fn audit_level_rows(levels: &Vec<LevelChangeRow>, symbol: Option<&str>) -> (r: (u64, u64))
    ensures
        r.0 == repeated_identities(levels@),
        r.1 <= levels@.len(),
        r.1 == match symbol {
            Some(s) => foreign_levels(levels@, s@),
            None => 0,
        },
{
    let mut sides: Vec<String> = Vec::new();
    let mut seen: BTreeMap<(u64, u64, u64), bool> = BTreeMap::new();
    let mut dups: u64 = 0;
    let mut foreign: u64 = 0;
    let mut i: usize = 0;
    while i < levels.len()
        invariant
            i <= levels@.len(),
            sides@.len() <= i,
            forall|a: int, b: int| 0 <= a < b < sides@.len() ==> sides@[a]@ != sides@[b]@,
            forall|j: int|
                0 <= j < i ==> exists|a: int|
                    0 <= a < sides@.len() && #[trigger] sides@[a]@ == (#[trigger] levels@[j]).side@,
            forall|key: (u64, u64, u64)|
                #[trigger] seen@.contains_key(key) <==> key.1 < sides@.len() && exists|j: int|
                    0 <= j < i && #[trigger] levels@[j].final_update_id == key.0
                        && levels@[j].side@ == sides@[key.1 as int]@ && levels@[j].price == key.2,
            dups == repeated_identities(levels@.take(i as int)),
            dups <= i,
            foreign <= i,
            foreign == match symbol {
                Some(s) => foreign_levels(levels@.take(i as int), s@),
                None => 0,
            },
        decreases levels@.len() - i,
    {
        let row = &levels[i];
        proof {
            assert(levels@.take(i + 1).drop_last() =~= levels@.take(i as int));
            assert(levels@.take(i + 1).last() == levels@[i as int]);
        }
        let idx = side_index(&sides, row.side.as_str());
        if idx == sides.len() {
            let ghost before = sides@;
            sides.push(row.side.clone());
            proof {
                assert forall|j: int| 0 <= j < i implies exists|a: int|
                    0 <= a < sides@.len() && #[trigger] sides@[a]@ == (#[trigger] levels@[j]).side@ by {
                    let a = choose|a: int| 0 <= a < before.len() && #[trigger] before[a]@ == levels@[j].side@;
                    assert(sides@[a] == before[a]);
                }
                assert forall|key: (u64, u64, u64)| #[trigger] seen@.contains_key(key) implies key.1
                    < before.len() by {}
            }
        }
        let key = (row.final_update_id, idx as u64, row.price);
        proof {
            let n: int = i as int;
            let l = levels@.take(i + 1);
            assert((exists|j: int| 0 <= j < n && #[trigger] same_identity(l[j], l[n]))
                == seen@.contains_key(key)) by {
                if exists|j: int| 0 <= j < n && #[trigger] same_identity(l[j], l[n]) {
                    let j = choose|j: int| 0 <= j < n && #[trigger] same_identity(l[j], l[n]);
                    assert(levels@[j] == l[j]);
                    assert(levels@[j].final_update_id == key.0);
                }
                if seen@.contains_key(key) {
                    let j = choose|j: int|
                        0 <= j < i && #[trigger] levels@[j].final_update_id == key.0
                            && levels@[j].side@ == sides@[key.1 as int]@ && levels@[j].price
                            == key.2;
                    assert(l[j] == levels@[j]);
                    assert(same_identity(l[j], l[n]));
                }
            }
        }
        if seen.contains_key(&key) {
            dups = dups + 1;
        } else {
            seen.insert(key, true);
        }
        if let Some(s) = symbol {
            if !str_equal(row.symbol.as_str(), s) {
                foreign = foreign + 1;
            }
        }
        proof {
            assert forall|k2: (u64, u64, u64)| #[trigger] seen@.contains_key(k2) <==> k2.1
                < sides@.len() && exists|j: int|
                0 <= j < i + 1 && #[trigger] levels@[j].final_update_id == k2.0
                    && levels@[j].side@ == sides@[k2.1 as int]@ && levels@[j].price == k2.2 by {
                if k2 == key {
                    assert(levels@[i as int].final_update_id == k2.0);
                } else if k2.1 < sides@.len() && exists|j: int|
                    0 <= j < i + 1 && #[trigger] levels@[j].final_update_id == k2.0
                        && levels@[j].side@ == sides@[k2.1 as int]@ && levels@[j].price == k2.2 {
                    let j = choose|j: int|
                        0 <= j < i + 1 && #[trigger] levels@[j].final_update_id == k2.0
                            && levels@[j].side@ == sides@[k2.1 as int]@ && levels@[j].price
                            == k2.2;
                    if j == i {
                        assert(sides@[k2.1 as int]@ == sides@[idx as int]@);
                        if k2.1 != idx as u64 {
                            if k2.1 < idx as u64 {
                                assert(sides@[k2.1 as int]@ != sides@[idx as int]@);
                            } else {
                                assert(sides@[idx as int]@ != sides@[k2.1 as int]@);
                            }
                        }
                    }
                }
            }
            assert forall|j: int| 0 <= j < i + 1 implies exists|a: int|
                0 <= a < sides@.len() && #[trigger] sides@[a]@ == (#[trigger] levels@[j]).side@ by {
                if j == i {
                    assert(sides@[idx as int]@ == levels@[j].side@);
                }
            }
        }
        i = i + 1;
    }
    proof {
        assert(levels@.take(levels@.len() as int) =~= levels@);
    }
    (dups, foreign)
}

/// Number of depth events whose final update id does not exceed the
/// previous event's.
fn count_sequence_anomalies(levels: &Vec<LevelChangeRow>) -> (r: u64)
    ensures
        r == non_increasing_steps(event_finals(levels@)),
{
    if levels.len() == 0 {
        return 0;
    }
    let mut prev: Option<u64> = None;
    let mut cur: u64 = levels[0].final_update_id;
    let mut anomalies: u64 = 0;
    let mut i: usize = 1;
    proof {
        assert(levels@.take(1).drop_last() =~= Seq::<LevelChangeRow>::empty());
        assert(event_finals(levels@.take(1).drop_last()) == Seq::<u64>::empty());
        assert(event_finals(levels@.take(1)) == seq![levels@[0].final_update_id]);
        assert(seq![levels@[0].final_update_id].drop_last() =~= Seq::<u64>::empty());
    }
    while i < levels.len()
        invariant
            1 <= i <= levels@.len(),
            ({
                let ef = event_finals(levels@.take(i as int));
                &&& ef.len() >= 1
                &&& ef.len() <= i
                &&& cur == ef.last()
                &&& prev == (if ef.len() >= 2 {
                    Some(ef[ef.len() - 2])
                } else {
                    None::<u64>
                })
                &&& anomalies == non_increasing_steps(ef.drop_last())
                &&& anomalies <= ef.len()
            }),
        decreases levels@.len() - i,
    {
        let ghost ef = event_finals(levels@.take(i as int));
        proof {
            assert(levels@.take(i + 1).drop_last() =~= levels@.take(i as int));
            assert(levels@.take(i + 1).last() == levels@[i as int]);
            assert(levels@.take(i + 1)[i - 1] == levels@[i - 1]);
            lemma_steps_bound(ef.drop_last());
        }
        let f = levels[i].final_update_id;
        if levels[i].seq == levels[i - 1].seq {
            if f > cur {
                cur = f;
            }
            proof {
                let ef2 = event_finals(levels@.take(i + 1));
                assert(ef2.drop_last() =~= ef.drop_last());
            }
        } else {
            if let Some(p) = prev {
                if cur <= p {
                    anomalies = anomalies + 1;
                }
            }
            prev = Some(cur);
            cur = f;
            proof {
                let ef2 = event_finals(levels@.take(i + 1));
                assert(ef2.drop_last() =~= ef);
            }
        }
        i = i + 1;
    }
    proof {
        assert(levels@.take(levels@.len() as int) =~= levels@);
        lemma_steps_bound(event_finals(levels@).drop_last());
    }
    if let Some(p) = prev {
        if cur <= p {
            anomalies = anomalies + 1;
        }
    }
    anomalies
}

proof fn lemma_steps_bound(f: Seq<u64>)
    ensures
        non_increasing_steps(f) <= f.len(),
    decreases f.len(),
{
    if f.len() >= 2 {
        lemma_steps_bound(f.drop_last());
    }
}

/// Audit a session's stored rows. `depth_events` and `snapshots` are the
/// stored counts of depth events and snapshots; rows are checked against
/// the session's symbol when there is a session record.
pub fn audit_session(
    session: Option<SessionRecord>,
    raw: &Vec<RawEventRow>,
    trades: &Vec<TradeRow>,
    levels: &Vec<LevelChangeRow>,
    depth_events: u64,
    snapshots: u64,
) -> (r: VerifyReport)
    requires
        trades@.len() + levels@.len() <= u64::MAX,
    ensures
        r.session == session,
        r.raw_events == raw@.len(),
        r.raw_parse_errors == parse_errors(raw@),
        r.trade_rows == trades@.len(),
        r.level_change_rows == levels@.len(),
        r.depth_events == depth_events,
        r.snapshots == snapshots,
        forall|i: int, j: int|
            0 <= i < j < r.duplicate_trade_ids@.len() ==> r.duplicate_trade_ids@[i]
                < r.duplicate_trade_ids@[j],
        forall|id: u64| #[trigger] r.duplicate_trade_ids@.contains(id) <==> id_count(trades@, id) > 1,
        r.duplicate_depth_identities == repeated_identities(levels@),
        r.marker_as_trade_ids@ == marker_ids(trades@),
        r.invalid_symbol_rows == match session {
            Some(s) => foreign_trades(trades@, s.symbol@) + foreign_levels(levels@, s.symbol@),
            None => 0,
        },
        r.depth_sequence_anomalies == non_increasing_steps(event_finals(levels@)),
        r.verified <==> (r.raw_parse_errors == 0 && r.duplicate_trade_ids@.len() == 0
            && r.duplicate_depth_identities == 0 && r.marker_as_trade_ids@.len() == 0
            && r.invalid_symbol_rows == 0 && r.depth_sequence_anomalies == 0),
{
    let raw_parse_errors = count_parse_errors(raw);
    let symbol: Option<&str> = match &session {
        Some(s) => Some(s.symbol.as_str()),
        None => None,
    };
    let (duplicate_trade_ids, marker_as_trade_ids, foreign_t) = audit_trades(trades, symbol);
    let (duplicate_depth_identities, foreign_l) = audit_level_rows(levels, symbol);
    let depth_sequence_anomalies = count_sequence_anomalies(levels);
    let verified = raw_parse_errors == 0 && duplicate_trade_ids.len() == 0
        && duplicate_depth_identities == 0 && marker_as_trade_ids.len() == 0 && foreign_t == 0
        && foreign_l == 0 && depth_sequence_anomalies == 0;
    VerifyReport {
        session,
        raw_events: raw.len() as u64,
        raw_parse_errors,
        trade_rows: trades.len() as u64,
        level_change_rows: levels.len() as u64,
        depth_events,
        snapshots,
        duplicate_trade_ids,
        duplicate_depth_identities,
        marker_as_trade_ids,
        invalid_symbol_rows: foreign_t + foreign_l,
        depth_sequence_anomalies,
        verified,
    }
}

/// The text of UTC time `secs` seconds plus `nanos` nanoseconds after the
/// Unix epoch, as `chrono::DateTime::<Utc>::from_timestamp` and `format`
/// with the pattern give it; `None` when the time is out of chrono's range.
pub uninterp spec fn utc_text(secs: i64, nanos: u32, pattern: Seq<char>) -> Option<Seq<char>>;

/// `chrono::DateTime::<Utc>::from_timestamp(secs, nanos)` formatted with
/// `pattern`, which is the report pattern (chrono formats every item of it;
/// a pattern with an item it cannot format makes `to_string` panic). The
/// text is named by `utc_text`; the epoch itself is in range.
#[verifier::external_body]
fn format_utc(secs: i64, nanos: u32, pattern: &str) -> (r: Option<String>)
    requires
        pattern@ == UTC_PATTERN@,
    ensures
        match r {
            Some(t) => utc_text(secs, nanos, pattern@) == Some(t@),
            None => utc_text(secs, nanos, pattern@) is None,
        },
        secs == 0 && nanos == 0 ==> r is Some,
{
    match chrono::DateTime::from_timestamp(secs, nanos) {
        Some(dt) => Some(dt.format(pattern).to_string()),
        None => None,
    }
}

/// The report pattern of a time.
pub const UTC_PATTERN: &'static str = "%Y-%m-%d %H:%M:%S%.3f UTC";

/// A millisecond timestamp as UTC text (`%Y-%m-%d %H:%M:%S%.3f UTC`); a time
/// outside chrono's range reads as the epoch.
pub fn fmt_ms(ms: u64) -> (r: String)
    ensures
        ({
            let secs = (ms / 1000) as i64;
            let nanos = ((ms % 1000) * 1_000_000) as u32;
            match utc_text(secs, nanos, UTC_PATTERN@) {
                Some(t) => r@ == t,
                None => utc_text(0, 0, UTC_PATTERN@) == Some(r@),
            }
        }),
{
    let secs: i64 = (ms / 1000) as i64;
    let nanos: u32 = ((ms % 1000) as u32) * 1_000_000;
    match format_utc(secs, nanos, UTC_PATTERN) {
        Some(t) => t,
        None => match format_utc(0, 0, UTC_PATTERN) {
            Some(t) => t,
            None => {
                proof {
                    assert(false);
                }
                String::new()
            },
        },
    }
}

} // verus!
