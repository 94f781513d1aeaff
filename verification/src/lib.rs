pub mod analytics;
pub mod binance;
pub mod config;
pub mod diagnostics;
pub mod error;
pub mod orderbook;
pub mod ordered_map;
pub mod recording;
pub mod replay;
pub mod server;
pub mod server_replay;
pub mod stable_sort;
pub mod storage;
pub mod text;
pub mod trades;
pub mod verify;
