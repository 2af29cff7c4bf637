//! A micro-benchmark harness for server architectures: the fixed-size wire protocol,
//! the connection state machine and slot pool of the event-loop server, the pacing and
//! bookkeeping of the load generators, and the statistics they report.
pub mod connection;
pub mod endian;
pub mod loadgen;
pub mod pacing;
pub mod pool;
pub mod protocol;
pub mod stats;
pub mod utils;

pub use crate::utils::get_time;
