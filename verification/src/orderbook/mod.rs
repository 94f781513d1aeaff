pub mod book;
pub mod level;
pub mod live;
pub mod synchronizer;

pub use book::OrderBook;
pub use synchronizer::{ProcessResult, SyncState, Synchronizer};
