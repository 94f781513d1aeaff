//! Condensed analytics outputs used to compare runs.
use vstd::prelude::*;

use crate::orderbook::level::ticks_to_price_str;
use crate::text::{
    decimal_text, fixed_text, push_decimal, push_fixed, push_signed, push_str,
    signed_decimal_text,
};

verus! {

/// A deterministic fingerprint of the flow analytics, used to compare two
/// runs (live against replay).
#[derive(Debug, Clone, PartialEq)]
pub struct AnalyticsFlowDigest {
    pub trade_count: u64,
    pub trade_volume: u64,
    pub buy_volume: u64,
    pub sell_volume: u64,
    pub delta: i128,
    pub cvd: i128,
    pub large_trade_count: u64,
    pub sweep_candidate_count: u64,
    pub absorption_candidate_count: u64,
    pub replenishment_count: u64,
    pub liquidity_added: u64,
    pub liquidity_removed: u64,
    /// `(price, total, buy, sell, delta)` for every traded price, by price.
    pub volume_by_price: Vec<(u64, u64, u64, u64, i128)>,
}

/// The one-line summary of a flow digest.
pub open spec fn flow_summary_text(d: AnalyticsFlowDigest) -> Seq<char> {
    "trades="@ + decimal_text(d.trade_count as nat) + " volume="@ + fixed_text(
        d.trade_volume as nat,
        4,
    ) + " buy="@ + fixed_text(d.buy_volume as nat, 4) + " sell="@ + fixed_text(
        d.sell_volume as nat,
        4,
    ) + " delta="@ + signed_decimal_text(d.delta as int) + " cvd="@ + signed_decimal_text(
        d.cvd as int,
    ) + " large="@ + decimal_text(d.large_trade_count as nat) + " sweeps="@ + decimal_text(
        d.sweep_candidate_count as nat,
    ) + " absorption="@ + decimal_text(d.absorption_candidate_count as nat)
        + " replenishments="@ + decimal_text(d.replenishment_count as nat) + " liq_added="@
        + fixed_text(d.liquidity_added as nat, 4) + " liq_removed="@ + fixed_text(
        d.liquidity_removed as nat,
        4,
    ) + " prices="@ + decimal_text(d.volume_by_price@.len())
}

impl AnalyticsFlowDigest {
    /// One-line summary: counts in decimal, volumes with four decimals.
    pub fn summarize(&self) -> (r: String)
        ensures
            r@ == flow_summary_text(*self),
    {
        let mut s = String::new();
        push_str(&mut s, "trades=");
        push_decimal(&mut s, self.trade_count as u128);
        push_str(&mut s, " volume=");
        push_fixed(&mut s, self.trade_volume, 4);
        push_str(&mut s, " buy=");
        push_fixed(&mut s, self.buy_volume, 4);
        push_str(&mut s, " sell=");
        push_fixed(&mut s, self.sell_volume, 4);
        push_str(&mut s, " delta=");
        push_signed(&mut s, self.delta);
        push_str(&mut s, " cvd=");
        push_signed(&mut s, self.cvd);
        push_str(&mut s, " large=");
        push_decimal(&mut s, self.large_trade_count as u128);
        push_str(&mut s, " sweeps=");
        push_decimal(&mut s, self.sweep_candidate_count as u128);
        push_str(&mut s, " absorption=");
        push_decimal(&mut s, self.absorption_candidate_count as u128);
        push_str(&mut s, " replenishments=");
        push_decimal(&mut s, self.replenishment_count as u128);
        push_str(&mut s, " liq_added=");
        push_fixed(&mut s, self.liquidity_added, 4);
        push_str(&mut s, " liq_removed=");
        push_fixed(&mut s, self.liquidity_removed, 4);
        push_str(&mut s, " prices=");
        push_decimal(&mut s, self.volume_by_price.len() as u128);
        s
    }
}

/// Format a price tick for display (two decimals).
pub fn fmt_price(ticks: u64) -> (r: String)
    ensures
        r@ == fixed_text(ticks as nat, 2),
{
    ticks_to_price_str(ticks)
}

} // verus!
