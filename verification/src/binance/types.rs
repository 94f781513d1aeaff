use vstd::prelude::*;

verus! {

/// Copy of a list of `(price, quantity)` text pairs.
pub fn copy_levels(levels: &Vec<(String, String)>) -> (r: Vec<(String, String)>)
    ensures
        r@ == levels@,
{
    let mut out: Vec<(String, String)> = Vec::new();
    let mut i: usize = 0;
    while i < levels.len()
        invariant
            i <= levels@.len(),
            out@ == levels@.take(i as int),
        decreases levels@.len() - i,
    {
        let p = levels[i].0.clone();
        let q = levels[i].1.clone();
        out.push((p, q));
        proof {
            assert(levels@.take(i + 1) =~= levels@.take(i as int).push(levels@[i as int]));
        }
        i = i + 1;
    }
    proof {
        assert(levels@.take(levels@.len() as int) =~= levels@);
    }
    out
}

/// REST response for `GET /fapi/v1/depth`.
#[derive(Debug, Clone)]
pub struct DepthSnapshot {
    /// The last update ID in the snapshot.
    pub last_update_id: u64,
    /// Bid levels as `[price, quantity]` text.
    pub bids: Vec<(String, String)>,
    /// Ask levels as `[price, quantity]` text.
    pub asks: Vec<(String, String)>,
    /// Timestamp of the last update.
    pub t: Option<u64>,
    /// Event time.
    pub e: Option<String>,
    /// Last update time.
    pub last_update_time: Option<u64>,
}

/// WebSocket depth update event from Binance USDⓈ-M Futures.
#[derive(Debug, Clone)]
pub struct DepthUpdate {
    /// Event type (e.g., "depthUpdate").
    pub event_type: String,
    /// Event time (millisecond timestamp).
    pub event_time: u64,
    /// Transaction time (millisecond timestamp).
    pub transaction_time: u64,
    /// Symbol (e.g., "BTCUSDT").
    pub symbol: String,
    /// First update ID in this event (`U`).
    pub first_update_id: u64,
    /// Final update ID in this event (`u`).
    pub final_update_id: u64,
    /// Final update ID of the previous stream event (`pu`).
    pub previous_final_update_id: u64,
    /// Bid updates: `[price, quantity]` text.
    pub bids: Vec<(String, String)>,
    /// Ask updates: `[price, quantity]` text.
    pub asks: Vec<(String, String)>,
}

impl DepthUpdate {
    /// Two updates carry the same data.
    pub open spec fn same_as(&self, other: &DepthUpdate) -> bool {
        &&& self.event_type == other.event_type
        &&& self.event_time == other.event_time
        &&& self.transaction_time == other.transaction_time
        &&& self.symbol == other.symbol
        &&& self.first_update_id == other.first_update_id
        &&& self.final_update_id == other.final_update_id
        &&& self.previous_final_update_id == other.previous_final_update_id
        &&& self.bids@ == other.bids@
        &&& self.asks@ == other.asks@
    }

    /// A field-by-field copy of this update.
    pub fn copy_update(&self) -> (r: DepthUpdate)
        ensures
            r.same_as(self),
    {
        DepthUpdate {
            event_type: self.event_type.clone(),
            event_time: self.event_time,
            transaction_time: self.transaction_time,
            symbol: self.symbol.clone(),
            first_update_id: self.first_update_id,
            final_update_id: self.final_update_id,
            previous_final_update_id: self.previous_final_update_id,
            bids: copy_levels(&self.bids),
            asks: copy_levels(&self.asks),
        }
    }
}

/// Exchange info response.
#[derive(Debug, Clone)]
pub struct ExchangeInfo {
    pub symbols: Vec<SymbolInfo>,
}

/// Per-symbol exchange rules.
#[derive(Debug, Clone)]
pub struct SymbolInfo {
    pub symbol: String,
    pub filters: Vec<Filter>,
    pub base_asset_precision: Option<u32>,
    pub quote_asset_precision: Option<u32>,
    pub price_precision: Option<u32>,
    pub quantity_precision: Option<u32>,
}

/// Exchange info symbol filter.
#[derive(Debug, Clone)]
pub struct Filter {
    pub filter_type: String,
    pub min_price: Option<String>,
    pub max_price: Option<String>,
    pub tick_size: Option<String>,
    pub min_qty: Option<String>,
    pub max_qty: Option<String>,
    pub step_size: Option<String>,
}

/// Index of the first filter whose type is `kind`, if any.
pub open spec fn first_filter_of(filters: Seq<Filter>, kind: Seq<char>) -> Option<int>
    decreases filters.len(),
{
    if filters.len() == 0 {
        None
    } else {
        match first_filter_of(filters.drop_last(), kind) {
            Some(i) => Some(i),
            None => if filters.last().filter_type@ == kind {
                Some(filters.len() - 1)
            } else {
                None
            },
        }
    }
}

/// The `field` of the first filter of type `kind` (`None` when there is no
/// such filter or it lacks the field).
pub open spec fn filter_field(
    filters: Seq<Filter>,
    kind: Seq<char>,
    field: spec_fn(Filter) -> Option<String>,
) -> Option<Seq<char>> {
    match first_filter_of(filters, kind) {
        Some(i) => match field(filters[i]) {
            Some(v) => Some(v@),
            None => None,
        },
        None => None,
    }
}

/// Text equality of two string slices.
pub fn str_equal(a: &str, b: &str) -> (r: bool)
    ensures
        r == (a@ == b@),
{
    let ab = a.as_bytes();
    let bb = b.as_bytes();
    proof {
        vstd::utf8::encode_utf8_decode_utf8(a@);
        vstd::utf8::encode_utf8_decode_utf8(b@);
    }
    if ab.len() != bb.len() {
        return false;
    }
    let mut i: usize = 0;
    while i < ab.len()
        invariant
            ab@ == vstd::utf8::encode_utf8(a@),
            bb@ == vstd::utf8::encode_utf8(b@),
            ab@.len() == bb@.len(),
            i <= ab@.len(),
            forall|j: int| 0 <= j < i ==> ab@[j] == bb@[j],
        decreases ab@.len() - i,
    {
        if ab[i] != bb[i] {
            proof {
                assert(ab@[i as int] != bb@[i as int]);
                assert(ab@ != bb@);
            }
            return false;
        }
        i = i + 1;
    }
    proof {
        assert(ab@ =~= bb@);
    }
    true
}

impl SymbolInfo {
    fn filter_index(&self, kind: &str) -> (r: Option<usize>)
        ensures
            r matches Some(i) ==> i < self.filters@.len() && first_filter_of(self.filters@, kind@)
                == Some(i as int),
            r is None ==> first_filter_of(self.filters@, kind@) is None,
    {
        let mut i: usize = 0;
        while i < self.filters.len()
            invariant
                i <= self.filters@.len(),
                first_filter_of(self.filters@.take(i as int), kind@) is None,
            decreases self.filters@.len() - i,
        {
            proof {
                assert(self.filters@.take(i + 1).drop_last() =~= self.filters@.take(i as int));
                lemma_first_filter_prefix(self.filters@, kind@, i as int + 1);
            }
            if str_equal(self.filters[i].filter_type.as_str(), kind) {
                return Some(i);
            }
            i = i + 1;
        }
        proof {
            assert(self.filters@.take(i as int) =~= self.filters@);
        }
        None
    }

    /// The tick size of the `PRICE_FILTER` filter.
    pub fn tick_size(&self) -> (r: Option<&str>)
        ensures
            match r {
                Some(t) => filter_field(self.filters@, "PRICE_FILTER"@, |f: Filter| f.tick_size)
                    == Some(t@),
                None => filter_field(self.filters@, "PRICE_FILTER"@, |f: Filter| f.tick_size)
                    is None,
            },
    {
        match self.filter_index("PRICE_FILTER") {
            Some(i) => match &self.filters[i].tick_size {
                Some(t) => Some(t.as_str()),
                None => None,
            },
            None => None,
        }
    }

    /// The step size of the `LOT_SIZE` filter.
    pub fn step_size(&self) -> (r: Option<&str>)
        ensures
            match r {
                Some(t) => filter_field(self.filters@, "LOT_SIZE"@, |f: Filter| f.step_size)
                    == Some(t@),
                None => filter_field(self.filters@, "LOT_SIZE"@, |f: Filter| f.step_size) is None,
            },
    {
        match self.filter_index("LOT_SIZE") {
            Some(i) => match &self.filters[i].step_size {
                Some(t) => Some(t.as_str()),
                None => None,
            },
            None => None,
        }
    }
}

/// A match found within the first `k` filters stays the first match.
proof fn lemma_first_filter_prefix(filters: Seq<Filter>, kind: Seq<char>, k: int)
    requires
        0 <= k <= filters.len(),
    ensures
        first_filter_of(filters.take(k), kind) matches Some(i) ==> first_filter_of(filters, kind)
            == Some(i),
    decreases filters.len() - k,
{
    if k < filters.len() {
        assert(filters.take(k + 1).drop_last() =~= filters.take(k));
        lemma_first_filter_prefix(filters, kind, k + 1);
    } else {
        assert(filters.take(k) =~= filters);
    }
}

} // verus!
