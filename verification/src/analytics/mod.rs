pub mod book;
pub mod events;
pub mod config;
pub mod liquidity;
pub mod snapshot;
pub mod flow;
pub mod heatmap;
pub mod large_trades;
pub mod absorption;
pub mod clusters;
pub mod sweeps;
pub mod engine;
