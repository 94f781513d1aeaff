pub mod normalizer;
pub mod processor;
pub mod trade;
