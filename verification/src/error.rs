use vstd::prelude::*;

use crate::orderbook::synchronizer::{state_name, SyncState};
use crate::text::{decimal_text, push_decimal, push_str};

verus! {

/// Errors specific to the order-book engine.
#[derive(Debug, Clone)]
pub enum OrderBookError {
    /// Sequence gap: expected update id `expected`, got `got`.
    SequenceGap { expected: u64, got: u64 },
    /// `pu` continuity failure: expected `pu == expected`, got `got`.
    PuContinuityFailure { expected: u64, got: u64 },
    /// The order book is not synchronized.
    NotSynchronized(SyncState),
    /// A price or quantity field that is not a valid decimal; holds the text.
    InvalidPriceLevel(String),
    /// A snapshot was already applied.
    SnapshotAlreadyApplied,
    /// A snapshot is required before depth updates.
    SnapshotRequired,
}

/// The text of an error.
pub open spec fn book_error_text(e: OrderBookError) -> Seq<char> {
    match e {
        OrderBookError::SequenceGap { expected, got } => "sequence gap: expected update_id "@
            + decimal_text(expected as nat) + ", got "@ + decimal_text(got as nat),
        OrderBookError::PuContinuityFailure { expected, got } =>
            "pu continuity failure: expected pu="@ + decimal_text(expected as nat) + ", got pu="@
            + decimal_text(got as nat),
        OrderBookError::NotSynchronized(s) => "order book is not synchronized (state: "@
            + state_name(s) + ")"@,
        OrderBookError::InvalidPriceLevel(t) => "invalid price level: "@ + t@,
        OrderBookError::SnapshotAlreadyApplied => "snapshot already applied"@,
        OrderBookError::SnapshotRequired => "snapshot required before depth updates"@,
    }
}

impl OrderBookError {
    /// The text of the error.
    pub fn message(&self) -> (r: String)
        ensures
            r@ == book_error_text(*self),
    {
        let mut s = String::new();
        match self {
            OrderBookError::SequenceGap { expected, got } => {
                push_str(&mut s, "sequence gap: expected update_id ");
                push_decimal(&mut s, *expected as u128);
                push_str(&mut s, ", got ");
                push_decimal(&mut s, *got as u128);
            },
            OrderBookError::PuContinuityFailure { expected, got } => {
                push_str(&mut s, "pu continuity failure: expected pu=");
                push_decimal(&mut s, *expected as u128);
                push_str(&mut s, ", got pu=");
                push_decimal(&mut s, *got as u128);
            },
            OrderBookError::NotSynchronized(st) => {
                push_str(&mut s, "order book is not synchronized (state: ");
                push_str(&mut s, st.name());
                push_str(&mut s, ")");
            },
            OrderBookError::InvalidPriceLevel(t) => {
                push_str(&mut s, "invalid price level: ");
                push_str(&mut s, t.as_str());
            },
            OrderBookError::SnapshotAlreadyApplied => {
                push_str(&mut s, "snapshot already applied");
            },
            OrderBookError::SnapshotRequired => {
                push_str(&mut s, "snapshot required before depth updates");
            },
        }
        proof {
            assert(Seq::<char>::empty() + book_error_text(*self) =~= book_error_text(*self));
        }
        s
    }
}

} // verus!
