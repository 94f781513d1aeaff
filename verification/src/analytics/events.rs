//! Derived analytics events: what the analytics engine concluded, as
//! opposed to the raw market events it consumed.
use vstd::prelude::*;

verus! {

/// `serde_json::Value`: free-form JSON evidence attached to an event.
#[verifier::external_type_specification]
#[verifier::external_body]
pub struct ExJsonValue(serde_json::Value);

/// `Clone` of `serde_json::Value`, used by the derived `Clone` of events.
///
/// Nothing is claimed of the copy.
pub assume_specification[ <serde_json::Value as Clone>::clone ](v: &serde_json::Value) -> (r:
    serde_json::Value);

/// `serde_json::Value::Null`: the empty JSON evidence.
///
/// Nothing is claimed of the value; it only stands in the event's `detail`.
#[verifier::external_body]
pub(crate) fn json_null() -> (r: serde_json::Value) {
    serde_json::Value::Null
}

/// `serde_json::Map<K, V>`: the entries of a JSON object.
#[verifier::external_type_specification]
#[verifier::external_body]
#[verifier::reject_recursive_types(K)]
#[verifier::reject_recursive_types(V)]
pub struct ExJsonMap<K, V>(serde_json::Map<K, V>);

/// The entries of a JSON object map, by key.
pub uninterp spec fn json_entries(m: serde_json::Map<String, serde_json::Value>) -> Map<Seq<char>, serde_json::Value>;

/// The value `serde_json::Value::from` gives for an unsigned integer.
pub uninterp spec fn json_u64(v: u64) -> serde_json::Value;

/// The value `serde_json::Value::from` gives for a string.
pub uninterp spec fn json_string(t: Seq<char>) -> serde_json::Value;

/// The value `serde_json::Value::Object` gives for a map with the given
/// entries (the map is ordered by key, so its entries determine it).
pub uninterp spec fn json_object(entries: Map<Seq<char>, serde_json::Value>) -> serde_json::Value;

/// No entries.
pub open spec fn no_entries() -> Map<Seq<char>, serde_json::Value> {
    Map::empty()
}

/// `serde_json::Map::new`: an object map with no entries.
#[verifier::external_body]
pub(crate) fn json_map_new() -> (r: serde_json::Map<String, serde_json::Value>)
    ensures
        json_entries(r) == no_entries(),
{
    serde_json::Map::new()
}

/// `serde_json::Map::insert`: the map with the entry for `key` set to `v`
/// and the other entries kept.
#[verifier::external_body]
pub(crate) fn json_map_insert(
    m: serde_json::Map<String, serde_json::Value>,
    key: String,
    v: serde_json::Value,
) -> (r: serde_json::Map<String, serde_json::Value>)
    ensures
        json_entries(r) == json_entries(m).insert(key@, v),
{
    let mut m = m;
    m.insert(key, v);
    m
}

/// `serde_json::Value::from` for a `u64`, named `json_u64`.
#[verifier::external_body]
pub(crate) fn json_from_u64(v: u64) -> (r: serde_json::Value)
    ensures
        r == json_u64(v),
{
    serde_json::Value::from(v)
}

/// `serde_json::Value::from` for a `String`, named `json_string`.
#[verifier::external_body]
pub(crate) fn json_from_string(t: String) -> (r: serde_json::Value)
    ensures
        r == json_string(t@),
{
    serde_json::Value::from(t)
}

/// `serde_json::Value::Object`: the object with the map's entries, named
/// `json_object`.
#[verifier::external_body]
pub(crate) fn json_object_value(m: serde_json::Map<String, serde_json::Value>) -> (r: serde_json::Value)
    ensures
        r == json_object(json_entries(m)),
{
    serde_json::Value::Object(m)
}

/// The kind of a derived analytics event.
#[derive(Debug, Clone, Copy, PartialEq, Eq, Structural, Hash)]
pub enum AnalyticsEventKind {
    /// An aggressive trade contributed to flow.
    TradeDelta,
    /// A trade at or above the large-trade threshold.
    LargeTrade,
    /// Liquidity appeared at a previously empty level.
    LiquidityAdded,
    /// A level was removed.
    LiquidityRemoved,
    /// Liquidity increased at an existing level.
    LiquidityIncreased,
    /// Liquidity decreased at an existing level.
    LiquidityDecreased,
    /// A decrease followed by an increase at the same level within the
    /// window. A candidate pattern only.
    LiquidityReplenishment,
    /// Aggressive trades consumed several price levels.
    SweepCandidate,
    /// Heavy aggression absorbed without price displacement.
    AbsorptionCandidate,
    /// A completed trade cluster.
    Cluster,
    /// A data-quality anomaly (e.g. a crossed book).
    BookAnomaly,
}

/// The snake-case name of an event kind.
pub open spec fn kind_name(k: AnalyticsEventKind) -> Seq<char> {
    match k {
        AnalyticsEventKind::TradeDelta => "trade_delta"@,
        AnalyticsEventKind::LargeTrade => "large_trade"@,
        AnalyticsEventKind::LiquidityAdded => "liquidity_added"@,
        AnalyticsEventKind::LiquidityRemoved => "liquidity_removed"@,
        AnalyticsEventKind::LiquidityIncreased => "liquidity_increased"@,
        AnalyticsEventKind::LiquidityDecreased => "liquidity_decreased"@,
        AnalyticsEventKind::LiquidityReplenishment => "liquidity_replenishment"@,
        AnalyticsEventKind::SweepCandidate => "sweep_candidate"@,
        AnalyticsEventKind::AbsorptionCandidate => "absorption_candidate"@,
        AnalyticsEventKind::Cluster => "cluster"@,
        AnalyticsEventKind::BookAnomaly => "book_anomaly"@,
    }
}

impl AnalyticsEventKind {
    /// The snake-case name of the kind.
    pub fn as_str(self) -> (r: &'static str)
        ensures
            r@ == kind_name(self),
    {
        match self {
            AnalyticsEventKind::TradeDelta => "trade_delta",
            AnalyticsEventKind::LargeTrade => "large_trade",
            AnalyticsEventKind::LiquidityAdded => "liquidity_added",
            AnalyticsEventKind::LiquidityRemoved => "liquidity_removed",
            AnalyticsEventKind::LiquidityIncreased => "liquidity_increased",
            AnalyticsEventKind::LiquidityDecreased => "liquidity_decreased",
            AnalyticsEventKind::LiquidityReplenishment => "liquidity_replenishment",
            AnalyticsEventKind::SweepCandidate => "sweep_candidate",
            AnalyticsEventKind::AbsorptionCandidate => "absorption_candidate",
            AnalyticsEventKind::Cluster => "cluster",
            AnalyticsEventKind::BookAnomaly => "book_anomaly",
        }
    }
}

/// A derived analytics event.
#[derive(Debug, Clone)]
pub struct AnalyticsEvent {
    /// Symbol (e.g. "BTCUSDT").
    pub symbol: String,
    /// Exchange event timestamp (ms).
    pub ts_ms: u64,
    pub kind: AnalyticsEventKind,
    /// "BID"/"ASK" for liquidity, "BUY"/"SELL" for flow.
    pub side: Option<String>,
    /// Price in ticks, when applicable.
    pub price: Option<u64>,
    /// Quantity in ticks.
    pub quantity: u64,
    /// Free-form, deterministic JSON evidence.
    pub detail: serde_json::Value,
}

/// `e` carries the given kind, time, symbol, side, price and quantity.
pub open spec fn event_fields(
    e: AnalyticsEvent,
    kind: AnalyticsEventKind,
    ts_ms: u64,
    symbol: Seq<char>,
    side: Seq<char>,
    price: u64,
    quantity: u64,
) -> bool {
    &&& e.kind == kind
    &&& e.ts_ms == ts_ms
    &&& e.symbol@ == symbol
    &&& e.side matches Some(s) && s@ == side
    &&& e.price == Some(price)
    &&& e.quantity == quantity
}

impl AnalyticsEvent {
    /// An event with no side, no price, zero quantity and null detail.
    pub fn new(kind: AnalyticsEventKind, ts_ms: u64, symbol: &str) -> (r: Self)
        ensures
            r.kind == kind,
            r.ts_ms == ts_ms,
            r.symbol@ == symbol@,
            r.side is None,
            r.price is None,
            r.quantity == 0,
    {
        AnalyticsEvent {
            symbol: symbol.to_string(),
            ts_ms,
            kind,
            side: None,
            price: None,
            quantity: 0,
            detail: json_null(),
        }
    }

    pub fn with_side(self, side: &str) -> (r: Self)
        ensures
            r == (AnalyticsEvent { side: Some(r.side->0), ..self }),
            r.side matches Some(s) && s@ == side@,
    {
        AnalyticsEvent { side: Some(side.to_string()), ..self }
    }

    pub fn with_price(self, price: u64) -> (r: Self)
        ensures
            r == (AnalyticsEvent { price: Some(price), ..self }),
    {
        AnalyticsEvent { price: Some(price), ..self }
    }

    pub fn with_quantity(self, quantity: u64) -> (r: Self)
        ensures
            r == (AnalyticsEvent { quantity, ..self }),
    {
        AnalyticsEvent { quantity, ..self }
    }

    pub fn with_detail(self, detail: serde_json::Value) -> (r: Self)
        ensures
            r == (AnalyticsEvent { detail, ..self }),
    {
        AnalyticsEvent { detail, ..self }
    }
}

} // verus!
