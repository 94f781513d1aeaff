//! Recorded market data merged into one deterministic event stream ordered
//! by the recorder's global sequence.
use vstd::prelude::*;

use crate::binance::types::{str_equal, DepthUpdate};
use crate::orderbook::book::level_ticks;
use crate::orderbook::level::{
    lemma_price_text_round_trip, lemma_quantity_text_round_trip, ticks_to_price_str,
    ticks_to_quantity_str,
};
use crate::recording::recorder::{is_level_row, parsed_pairs};
use crate::stable_sort::{lemma_stable_sort, sort_stable, sorted_by_key, stable_sort_by_key, SortKey};
use crate::storage::{LevelChangeRow, SnapshotRow, TradeRow};
use crate::text::fixed_text;
use crate::trades::trade::{AggressorSide, TradeEvent};

verus! {

/// One replayable event.
#[derive(Debug, Clone)]
pub enum ReplayEvent {
    /// An order-book snapshot (initial sync or resync).
    Snapshot {
        seq: u64,
        update_id: u64,
        time_ms: u64,
        bids: Vec<(String, String)>,
        asks: Vec<(String, String)>,
    },
    /// A depth update rebuilt from its per-level rows.
    Depth { seq: u64, update: DepthUpdate },
    /// A normalized trade.
    Trade { seq: u64, event: TradeEvent },
}

/// The recorder sequence of an event.
pub open spec fn event_seq(e: ReplayEvent) -> u64 {
    match e {
        ReplayEvent::Snapshot { seq, .. } => seq,
        ReplayEvent::Depth { seq, .. } => seq,
        ReplayEvent::Trade { seq, .. } => seq,
    }
}

impl ReplayEvent {
    /// The recorder sequence that orders replay.
    pub fn seq(&self) -> (r: u64)
        ensures
            r == event_seq(*self),
    {
        match self {
            ReplayEvent::Snapshot { seq, .. } => *seq,
            ReplayEvent::Depth { seq, .. } => *seq,
            ReplayEvent::Trade { seq, .. } => *seq,
        }
    }

    /// Exchange event time (ms) used for real-time pacing.
    pub fn time_ms(&self) -> (r: u64)
        ensures
            r == match *self {
                ReplayEvent::Snapshot { time_ms, .. } => time_ms,
                ReplayEvent::Depth { update, .. } => update.event_time,
                ReplayEvent::Trade { event, .. } => event.trade_time,
            },
    {
        match self {
            ReplayEvent::Snapshot { time_ms, .. } => *time_ms,
            ReplayEvent::Depth { update, .. } => update.event_time,
            ReplayEvent::Trade { event, .. } => event.trade_time,
        }
    }
}

impl SortKey for ReplayEvent {
    open spec fn sort_key(&self) -> int {
        event_seq(*self) as int
    }

    fn key(&self) -> (r: u128) {
        self.seq() as u128
    }
}

/// All events of a session, ordered by sequence.
pub struct SessionData {
    pub events: Vec<ReplayEvent>,
}

impl SessionData {
    /// Order events by sequence; events with equal sequence keep their
    /// input order.
    pub fn new(events: Vec<ReplayEvent>) -> (r: Self)
        ensures
            r.events@ == stable_sort_by_key(events@),
            sorted_by_key(r.events@),
            r.events@.to_multiset() == events@.to_multiset(),
    {
        proof {
            lemma_stable_sort(events@);
        }
        SessionData { events: sort_stable(events) }
    }
}

/// What `serde_json::from_str` gives for a JSON list of integer pairs;
/// `None` stands for a parse error.
pub uninterp spec fn pairs_from_json_text(s: Seq<char>) -> Option<Seq<(u64, u64)>>;

/// `serde_json::from_str` into a list of integer pairs. The result is named
/// by `pairs_from_json_text`; on an error its message is returned, and
/// nothing is stated of that text.
#[verifier::external_body]
fn json_to_pairs(json: &str) -> (r: Result<Vec<(u64, u64)>, String>)
    ensures
        match r {
            Ok(v) => pairs_from_json_text(json@) == Some(v@),
            Err(_) => pairs_from_json_text(json@) is None,
        },
{
    match serde_json::from_str::<Vec<(u64, u64)>>(json) {
        Ok(v) => Ok(v),
        Err(e) => Err(e.to_string()),
    }
}

/// `v` holds the decimal texts of the tick pairs `p`: prices with two
/// places, quantities with four.
pub open spec fn level_texts(v: Seq<(String, String)>, p: Seq<(u64, u64)>) -> bool {
    &&& v.len() == p.len()
    &&& forall|i: int|
        0 <= i < p.len() ==> (#[trigger] v[i]).0@ == fixed_text(p[i].0 as nat, 2) && v[i].1@
            == fixed_text(p[i].1 as nat, 4)
}

/// Stored levels read back with the ticks they were stored with: texts
/// that hold the tick pairs `p` (prices with two places, quantities with
/// four) parse back to `p`, when every price is a whole number of cents and
/// every quantity a whole number of ten-thousandths.
pub proof fn lemma_stored_levels_read_back(v: Seq<(String, String)>, p: Seq<(u64, u64)>)
    requires
        level_texts(v, p),
        forall|i: int| 0 <= i < p.len() ==> (#[trigger] p[i]).0 % 1_000_000 == 0 && p[i].1 % 10_000 == 0,
    ensures
        forall|i: int| 0 <= i < v.len() ==> level_ticks(#[trigger] v[i]) == Some(p[i]),
{
    assert forall|i: int| 0 <= i < v.len() implies level_ticks(#[trigger] v[i]) == Some(p[i]) by {
        assert(v[i].0@ == fixed_text(p[i].0 as nat, 2));
        lemma_price_text_round_trip(p[i].0);
        lemma_quantity_text_round_trip(p[i].1);
    }
}

fn pairs_to_texts(pairs: &Vec<(u64, u64)>) -> (r: Vec<(String, String)>)
    ensures
        level_texts(r@, pairs@),
{
    let mut out: Vec<(String, String)> = Vec::new();
    let mut i: usize = 0;
    while i < pairs.len()
        invariant
            i <= pairs@.len(),
            level_texts(out@, pairs@.take(i as int)),
        decreases pairs@.len() - i,
    {
        let (p, q) = pairs[i];
        out.push((ticks_to_price_str(p), ticks_to_quantity_str(q)));
        i = i + 1;
    }
    proof {
        assert(pairs@.take(pairs@.len() as int) =~= pairs@);
    }
    out
}

/// Decode a stored level list (JSON `[[price_ticks, quantity_ticks], ...]`)
/// into the text pairs the order book takes.
pub fn decode_levels(json: &str) -> (r: Result<Vec<(String, String)>, String>)
    ensures
        match pairs_from_json_text(json@) {
            None => r is Err,
            Some(p) => r matches Ok(v) && level_texts(v@, p),
        },
{
    match json_to_pairs(json) {
        Ok(pairs) => Ok(pairs_to_texts(&pairs)),
        Err(e) => Err(e),
    }
}

/// `e` is the trade stored in row `r`.
pub open spec fn is_trade_of_row(e: TradeEvent, r: TradeRow) -> bool {
    &&& e.symbol@ == r.symbol@
    &&& e.trade_id == r.trade_id
    &&& e.price_ticks == r.price
    &&& e.quantity_ticks == r.quantity
    &&& e.event_time == r.exchange_event_time
    &&& e.trade_time == r.trade_time
    &&& e.local_receive_time_ns == r.local_receive_time
    &&& e.aggressor == (if r.aggressor_side@ == "BUY"@ {
        AggressorSide::Buy
    } else {
        AggressorSide::Sell
    })
    &&& e.order_type@ == r.order_type@
}

/// The trade stored in a row; any side other than "BUY" reads as a sell.
pub fn trade_row_to_event(r: &TradeRow) -> (e: TradeEvent)
    ensures
        is_trade_of_row(e, *r),
{
    TradeEvent {
        symbol: r.symbol.clone(),
        trade_id: r.trade_id,
        price_ticks: r.price,
        quantity_ticks: r.quantity,
        event_time: r.exchange_event_time,
        trade_time: r.trade_time,
        local_receive_time_ns: r.local_receive_time,
        aggressor: if str_equal(r.aggressor_side.as_str(), "BUY") {
            AggressorSide::Buy
        } else {
            AggressorSide::Sell
        },
        order_type: r.order_type.clone(),
    }
}

/// The rows of one depth event: its first row and its bid and ask levels.
pub struct DepthGroup {
    pub seq: u64,
    pub first: LevelChangeRow,
    pub bids: Seq<(u64, u64)>,
    pub asks: Seq<(u64, u64)>,
}

/// The group that a row starts.
pub open spec fn group_of_row(r: LevelChangeRow) -> DepthGroup {
    DepthGroup {
        seq: r.seq,
        first: r,
        bids: if r.side@ == "BID"@ {
            seq![(r.price, r.quantity)]
        } else {
            Seq::empty()
        },
        asks: if r.side@ == "BID"@ {
            Seq::empty()
        } else {
            seq![(r.price, r.quantity)]
        },
    }
}

/// `g` with row `r`'s level added: "BID" rows to the bids, any other to
/// the asks.
pub open spec fn group_with_row(g: DepthGroup, r: LevelChangeRow) -> DepthGroup {
    DepthGroup {
        bids: if r.side@ == "BID"@ {
            g.bids.push((r.price, r.quantity))
        } else {
            g.bids
        },
        asks: if r.side@ == "BID"@ {
            g.asks
        } else {
            g.asks.push((r.price, r.quantity))
        },
        ..g
    }
}

/// Rows grouped into depth events: consecutive rows with the same `seq`
/// form one event.
pub open spec fn depth_groups(rows: Seq<LevelChangeRow>) -> Seq<DepthGroup>
    decreases rows.len(),
{
    if rows.len() == 0 {
        Seq::empty()
    } else {
        let prev = depth_groups(rows.drop_last());
        let r = rows.last();
        if rows.len() >= 2 && rows[rows.len() - 2].seq == r.seq {
            prev.update(prev.len() - 1, group_with_row(prev.last(), r))
        } else {
            prev.push(group_of_row(r))
        }
    }
}

/// The rows `rows.take(k)` of one event (bid levels `b` first, then ask
/// levels `a`, all under `seq`) form one group.
proof fn lemma_regroup_prefix(
    rows: Seq<LevelChangeRow>,
    seq: u64,
    b: Seq<(u64, u64)>,
    a: Seq<(u64, u64)>,
    k: int,
)
    requires
        rows.len() == b.len() + a.len(),
        1 <= k <= rows.len(),
        forall|i: int| 0 <= i < rows.len() ==> (#[trigger] rows[i]).seq == seq,
        forall|i: int|
            0 <= i < b.len() ==> (#[trigger] rows[i]).side@ == "BID"@ && rows[i].price == b[i].0
                && rows[i].quantity == b[i].1,
        forall|i: int|
            0 <= i < a.len() ==> (#[trigger] rows[b.len() + i]).side@ == "ASK"@ && rows[b.len()
                + i].price == a[i].0 && rows[b.len() + i].quantity == a[i].1,
    ensures
        depth_groups(rows.take(k)).len() == 1,
        depth_groups(rows.take(k))[0].seq == seq,
        depth_groups(rows.take(k))[0].first == rows[0],
        depth_groups(rows.take(k))[0].bids == b.take(if k < b.len() { k } else { b.len() as int }),
        depth_groups(rows.take(k))[0].asks == a.take(if k < b.len() { 0 } else { k - b.len() }),
    decreases k,
{
    reveal_strlit("BID");
    reveal_strlit("ASK");
    assert("ASK"@[0] != "BID"@[0]);
    let t = rows.take(k);
    if k == 1 {
        assert(t.drop_last() =~= Seq::<LevelChangeRow>::empty());
        assert(depth_groups(t.drop_last()).len() == 0);
        assert(t.last() == rows[0]);
        if b.len() > 0 {
            assert(rows[0].side@ == "BID"@);
            assert(seq![(rows[0].price, rows[0].quantity)] =~= b.take(1));
            assert(Seq::<(u64, u64)>::empty() =~= a.take(0));
        } else {
            assert(rows[b.len() as int + 0] == rows[0]);
            assert(rows[0].side@ == "ASK"@);
            assert(rows[0].side@ != "BID"@);
            assert(seq![(rows[0].price, rows[0].quantity)] =~= a.take(1));
            assert(Seq::<(u64, u64)>::empty() =~= b.take(0));
        }
    } else {
        lemma_regroup_prefix(rows, seq, b, a, k - 1);
        assert(t.drop_last() =~= rows.take(k - 1));
        assert(t.last() == rows[k - 1]);
        assert(t[t.len() - 2] == rows[k - 2]);
        let r = rows[k - 1];
        if k - 1 < b.len() {
            assert(r.side@ == "BID"@);
            assert(b.take(k - 1).push((r.price, r.quantity)) =~= b.take(k));
        } else {
            let j = k - 1 - b.len();
            assert(rows[b.len() + j] == r);
            assert(r.side@ == "ASK"@);
            assert(r.side@ != "BID"@);
            assert(a.take(j).push((r.price, r.quantity)) =~= a.take(j + 1));
        }
    }
}

/// The rows the recorder writes for one depth event group back into that
/// one event on replay: its identifiers from its first row, its parsable
/// bid levels and its parsable ask levels, in order.
pub proof fn lemma_recorded_event_regroups(
    rows: Seq<LevelChangeRow>,
    session_id: u128,
    seq: u64,
    e: DepthUpdate,
    local_receive_ns: u128,
)
    requires
        rows.len() == parsed_pairs(e.bids@).len() + parsed_pairs(e.asks@).len(),
        rows.len() > 0,
        forall|i: int|
            0 <= i < parsed_pairs(e.bids@).len() ==> is_level_row(
                #[trigger] rows[i],
                session_id,
                seq,
                e,
                local_receive_ns,
                "BID"@,
                parsed_pairs(e.bids@)[i],
            ),
        forall|i: int|
            0 <= i < parsed_pairs(e.asks@).len() ==> is_level_row(
                #[trigger] rows[parsed_pairs(e.bids@).len() + i],
                session_id,
                seq,
                e,
                local_receive_ns,
                "ASK"@,
                parsed_pairs(e.asks@)[i],
            ),
    ensures
        depth_groups(rows).len() == 1,
        depth_groups(rows)[0].seq == seq,
        depth_groups(rows)[0].bids == parsed_pairs(e.bids@),
        depth_groups(rows)[0].asks == parsed_pairs(e.asks@),
        depth_groups(rows)[0].first.first_update_id == e.first_update_id,
        depth_groups(rows)[0].first.final_update_id == e.final_update_id,
        depth_groups(rows)[0].first.previous_final_update_id == e.previous_final_update_id,
        depth_groups(rows)[0].first.exchange_event_time == e.event_time,
        depth_groups(rows)[0].first.symbol@ == e.symbol@,
{
    let b = parsed_pairs(e.bids@);
    let a = parsed_pairs(e.asks@);
    assert forall|i: int| 0 <= i < rows.len() implies (#[trigger] rows[i]).seq == seq by {
        if i >= b.len() {
            assert(rows[b.len() + (i - b.len())] == rows[i]);
        }
    }
    lemma_regroup_prefix(rows, seq, b, a, rows.len() as int);
    assert(rows.take(rows.len() as int) =~= rows);
    assert(b.take(b.len() as int) =~= b);
    assert(a.take(rows.len() - b.len()) =~= a);
    if b.len() > 0 {
        assert(is_level_row(rows[0], session_id, seq, e, local_receive_ns, "BID"@, b[0]));
    } else {
        assert(rows[b.len() as int + 0] == rows[0]);
        assert(is_level_row(rows[0], session_id, seq, e, local_receive_ns, "ASK"@, a[0]));
    }
}

/// `u` is the depth update rebuilt from group `g`.
pub open spec fn is_update_of_group(u: DepthUpdate, g: DepthGroup) -> bool {
    &&& u.event_type@ == "depthUpdate"@
    &&& u.event_time == g.first.exchange_event_time
    &&& u.transaction_time == g.first.exchange_transaction_time
    &&& u.symbol@ == g.first.symbol@
    &&& u.first_update_id == g.first.first_update_id
    &&& u.final_update_id == g.first.final_update_id
    &&& u.previous_final_update_id == g.first.previous_final_update_id
    &&& level_texts(u.bids@, g.bids)
    &&& level_texts(u.asks@, g.asks)
}

fn start_update(r: &LevelChangeRow) -> (u: DepthUpdate)
    ensures
        is_update_of_group(u, group_of_row(*r)),
{
    let pair = (ticks_to_price_str(r.price), ticks_to_quantity_str(r.quantity));
    let mut bids: Vec<(String, String)> = Vec::new();
    let mut asks: Vec<(String, String)> = Vec::new();
    if str_equal(r.side.as_str(), "BID") {
        bids.push(pair);
    } else {
        asks.push(pair);
    }
    DepthUpdate {
        event_type: "depthUpdate".to_string(),
        event_time: r.exchange_event_time,
        transaction_time: r.exchange_transaction_time,
        symbol: r.symbol.clone(),
        first_update_id: r.first_update_id,
        final_update_id: r.final_update_id,
        previous_final_update_id: r.previous_final_update_id,
        bids,
        asks,
    }
}

fn extend_update(u: &mut DepthUpdate, g: Ghost<DepthGroup>, r: &LevelChangeRow)
    requires
        is_update_of_group(*old(u), g@),
    ensures
        is_update_of_group(*final(u), group_with_row(g@, *r)),
{
    let pair = (ticks_to_price_str(r.price), ticks_to_quantity_str(r.quantity));
    if str_equal(r.side.as_str(), "BID") {
        u.bids.push(pair);
    } else {
        u.asks.push(pair);
    }
}

/// Rebuild depth updates from their per-level rows: consecutive rows with
/// the same `seq` form one update, which takes its ids and times from the
/// first of them; "BID" rows give its bids and all others its asks, in row
/// order.
pub fn reconstruct_depth_updates(rows: &Vec<LevelChangeRow>) -> (r: Vec<(u64, DepthUpdate)>)
    ensures
        r@.len() == depth_groups(rows@).len(),
        forall|k: int|
            0 <= k < r@.len() ==> (#[trigger] r@[k]).0 == depth_groups(rows@)[k].seq
                && is_update_of_group(r@[k].1, depth_groups(rows@)[k]),
{
    let mut out: Vec<(u64, DepthUpdate)> = Vec::new();
    if rows.len() == 0 {
        return out;
    }
    let mut cur_seq: u64 = rows[0].seq;
    let mut cur: DepthUpdate = start_update(&rows[0]);
    let mut i: usize = 1;
    proof {
        assert(rows@.take(1).drop_last() =~= Seq::<LevelChangeRow>::empty());
        assert(rows@.take(1).last() == rows@[0]);
        assert(depth_groups(rows@.take(1).drop_last()) == Seq::<DepthGroup>::empty());
        assert(depth_groups(rows@.take(1)) == seq![group_of_row(rows@[0])]);
    }
    while i < rows.len()
        invariant
            1 <= i <= rows@.len(),
            ({
                let g = depth_groups(rows@.take(i as int));
                &&& g.len() == out@.len() + 1
                &&& forall|k: int|
                    0 <= k < out@.len() ==> (#[trigger] out@[k]).0 == g[k].seq
                        && is_update_of_group(out@[k].1, g[k])
                &&& cur_seq == g.last().seq
                &&& cur_seq == rows@[i - 1].seq
                &&& is_update_of_group(cur, g.last())
            }),
        decreases rows@.len() - i,
    {
        let ghost before = depth_groups(rows@.take(i as int));
        proof {
            assert(rows@.take(i + 1).drop_last() =~= rows@.take(i as int));
            assert(rows@.take(i + 1).last() == rows@[i as int]);
            assert(rows@.take(i + 1)[i - 1] == rows@[i - 1]);
        }
        if rows[i].seq == cur_seq {
            extend_update(&mut cur, Ghost(before.last()), &rows[i]);
        } else {
            let mut done = start_update(&rows[i]);
            std::mem::swap(&mut cur, &mut done);
            out.push((cur_seq, done));
            cur_seq = rows[i].seq;
        }
        i = i + 1;
    }
    proof {
        assert(rows@.take(rows@.len() as int) =~= rows@);
    }
    out.push((cur_seq, cur));
    out
}

/// `e` is the snapshot event of row `r`.
pub open spec fn is_snapshot_event(e: ReplayEvent, r: SnapshotRow) -> bool {
    match e {
        ReplayEvent::Snapshot { seq, update_id, time_ms, bids, asks } => {
            &&& seq == r.seq
            &&& update_id == r.snapshot_update_id
            &&& time_ms == r.timestamp
            &&& pairs_from_json_text(r.bids@) matches Some(p) && level_texts(bids@, p)
            &&& pairs_from_json_text(r.asks@) matches Some(p) && level_texts(asks@, p)
        },
        _ => false,
    }
}

/// `e` is the depth event of group `g`.
pub open spec fn is_depth_event(e: ReplayEvent, g: DepthGroup) -> bool {
    match e {
        ReplayEvent::Depth { seq, update } => seq == g.seq && is_update_of_group(update, g),
        _ => false,
    }
}

/// `e` is the trade event of row `r`.
pub open spec fn is_trade_event(e: ReplayEvent, r: TradeRow) -> bool {
    match e {
        ReplayEvent::Trade { seq, event } => seq == r.seq && is_trade_of_row(event, r),
        _ => false,
    }
}

/// `u` lists the snapshot events, then the depth events, then the trade
/// events of a session's rows, each in row order.
pub open spec fn is_session_stream(
    u: Seq<ReplayEvent>,
    snaps: Seq<SnapshotRow>,
    groups: Seq<DepthGroup>,
    trades: Seq<TradeRow>,
) -> bool {
    &&& u.len() == snaps.len() + groups.len() + trades.len()
    &&& forall|i: int| 0 <= i < snaps.len() ==> is_snapshot_event(#[trigger] u[i], snaps[i])
    &&& forall|k: int|
        0 <= k < groups.len() ==> is_depth_event(#[trigger] u[snaps.len() + k], groups[k])
    &&& forall|t: int|
        0 <= t < trades.len() ==> is_trade_event(
            #[trigger] u[snaps.len() + groups.len() + t],
            trades[t],
        )
}

/// A snapshot row whose bid or ask list does not decode.
pub open spec fn bad_snapshot(r: SnapshotRow) -> bool {
    pairs_from_json_text(r.bids@) is None || pairs_from_json_text(r.asks@) is None
}

impl SessionData {
    /// Merge a session's stored rows into one event stream ordered by
    /// sequence: snapshots (their level lists decoded), depth updates
    /// rebuilt from their rows, and trades. Fails when a snapshot's levels
    /// do not decode.
    pub fn from_rows(
        snapshots: &Vec<SnapshotRow>,
        level_changes: &Vec<LevelChangeRow>,
        trades: &Vec<TradeRow>,
    ) -> (r: Result<SessionData, String>)
        ensures
            r is Err <==> exists|i: int|
                0 <= i < snapshots@.len() && #[trigger] bad_snapshot(snapshots@[i]),
            r matches Ok(d) ==> exists|u: Seq<ReplayEvent>|
                #[trigger] is_session_stream(u, snapshots@, depth_groups(level_changes@), trades@)
                    && d.events@ == stable_sort_by_key(u),
    {
        let mut events: Vec<ReplayEvent> = Vec::new();
        let mut i: usize = 0;
        while i < snapshots.len()
            invariant
                i <= snapshots@.len(),
                events@.len() == i,
                forall|j: int| 0 <= j < i ==> is_snapshot_event(#[trigger] events@[j], snapshots@[j]),
                forall|j: int| 0 <= j < i ==> !#[trigger] bad_snapshot(snapshots@[j]),
            decreases snapshots@.len() - i,
        {
            let s = &snapshots[i];
            let bids = match decode_levels(s.bids.as_str()) {
                Ok(b) => b,
                Err(e) => {
                    assert(bad_snapshot(snapshots@[i as int]));
                    return Err(e);
                },
            };
            let asks = match decode_levels(s.asks.as_str()) {
                Ok(a) => a,
                Err(e) => {
                    assert(bad_snapshot(snapshots@[i as int]));
                    return Err(e);
                },
            };
            events.push(
                ReplayEvent::Snapshot {
                    seq: s.seq,
                    update_id: s.snapshot_update_id,
                    time_ms: s.timestamp,
                    bids,
                    asks,
                },
            );
            i = i + 1;
        }
        let ns = events.len();
        let groups = reconstruct_depth_updates(level_changes);
        let ghost gs = depth_groups(level_changes@);
        let mut gi: usize = 0;
        while gi < groups.len()
            invariant
                gi <= groups@.len(),
                groups@.len() == gs.len(),
                forall|k: int|
                    0 <= k < groups@.len() ==> (#[trigger] groups@[k]).0 == gs[k].seq
                        && is_update_of_group(groups@[k].1, gs[k]),
                events@.len() == ns + gi,
                ns == snapshots@.len(),
                forall|j: int| 0 <= j < ns ==> is_snapshot_event(#[trigger] events@[j], snapshots@[j]),
                forall|k: int| 0 <= k < gi ==> is_depth_event(#[trigger] events@[ns + k], gs[k]),
            decreases groups@.len() - gi,
        {
            let seq = groups[gi].0;
            let update = groups[gi].1.copy_update();
            proof {
                assert(groups@[gi as int].0 == gs[gi as int].seq);
            }
            events.push(ReplayEvent::Depth { seq, update });
            gi = gi + 1;
        }
        let ghost nd = events@.len();
        let mut t: usize = 0;
        while t < trades.len()
            invariant
                t <= trades@.len(),
                events@.len() == nd + t,
                nd == ns + gs.len(),
                ns == snapshots@.len(),
                forall|j: int| 0 <= j < ns ==> is_snapshot_event(#[trigger] events@[j], snapshots@[j]),
                forall|k: int| 0 <= k < gs.len() ==> is_depth_event(#[trigger] events@[ns + k], gs[k]),
                forall|j: int| 0 <= j < t ==> is_trade_event(#[trigger] events@[nd + j], trades@[j]),
            decreases trades@.len() - t,
        {
            let tr = &trades[t];
            events.push(ReplayEvent::Trade { seq: tr.seq, event: trade_row_to_event(tr) });
            t = t + 1;
        }
        proof {
            assert(is_session_stream(events@, snapshots@, gs, trades@));
            assert(forall|j: int| 0 <= j < snapshots@.len() ==> !#[trigger] bad_snapshot(snapshots@[j]));
        }
        Ok(SessionData::new(events))
    }
}

} // verus!
