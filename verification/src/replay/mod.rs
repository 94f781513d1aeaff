pub mod reader;
pub mod engine;
pub mod feed;
