//! A harness that spreads a fixed amount of increment work over workers,
//! applies one of several synchronization disciplines to the shared total,
//! and judges the observed total against the product of worker count and
//! repetitions per worker.

pub mod channel;
pub mod coordinator;
pub mod counter;
pub mod harness;
pub mod lock;
pub mod race;
pub mod runs;
pub mod trace;
pub mod worker;
