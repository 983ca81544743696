//! A verified throughput measurement engine.
//!
//! A cumulative byte counter is sampled on a fixed cadence. Successive readings
//! become a rate in whole bytes per second, the rate is smoothed over a short
//! window, and the smoothed rate is kept in a bounded history for display.
//! Every rate is an unsigned integer and every timestamp is a reading of a
//! monotonic clock in nanoseconds, so each contract is exact.

pub mod counter;
pub mod engine;
pub mod render;
pub mod history;
pub mod normalize;
pub mod sampler;
pub mod smoother;
