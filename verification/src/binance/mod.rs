pub mod trade_types;
pub mod types;

pub use trade_types::FuturesTrade;

use vstd::prelude::*;

use crate::binance::types::DepthUpdate;

verus! {

/// Messages from the depth stream client to the engine.
#[derive(Debug)]
pub enum WsMessage {
    /// A depth update, with its payload as received and the local receive
    /// time in nanoseconds since the Unix epoch.
    DepthUpdate { update: DepthUpdate, raw: String, local_receive_time_ns: u128 },
    /// The connection has been established.
    Connected,
    /// The connection has been closed.
    Disconnected,
    /// An error occurred.
    Error(String),
}

/// Messages from the trade stream client to the engine.
#[derive(Debug)]
pub enum TradeWsMessage {
    /// A parsed trade, with its payload as received and the local receive
    /// time in nanoseconds since the Unix epoch.
    Trade { trade: FuturesTrade, raw: String, local_receive_time_ns: u128 },
    /// The connection has been established.
    Connected,
    /// The connection has been closed.
    Disconnected,
    /// An error occurred.
    Error(String),
}

/// Current wall-clock time in nanoseconds since the Unix epoch (`0` when the
/// clock reads before the epoch).
pub fn now_unix_nanos() -> u128 {
    match clock_since_epoch_nanos() {
        Some(n) => n,
        None => 0,
    }
}

/// `std::time::SystemTime::now()` as nanoseconds since the Unix epoch, or
/// `None` when the clock reads before the epoch (`duration_since` fails).
/// Nothing is claimed of the value, which depends on the machine's clock.
#[verifier::external_body]
fn clock_since_epoch_nanos() -> (r: Option<u128>) {
    match std::time::SystemTime::now().duration_since(std::time::UNIX_EPOCH) {
        Ok(d) => Some(d.as_nanos()),
        Err(_) => None,
    }
}

} // verus!
pub mod reconnect;
