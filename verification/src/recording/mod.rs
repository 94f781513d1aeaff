pub mod metrics;
pub mod recorder;
pub mod session;
pub mod worker;
