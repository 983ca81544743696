//! The byte counter that a producer and a sampler share.

use std::sync::atomic::AtomicU64;
use std::sync::atomic::Ordering;
use std::sync::Arc;
use vstd::prelude::*;

verus! {

/// A 64-bit byte counter with one writer and one reader. Each clone is a
/// handle on the same counter. The counter is the only state that the
/// producer and the sampler share, so every access is relaxed.
///
/// Another thread may add to the counter at any moment: no contract here
/// speaks of its value. What a sampler makes of two readings is stated where
/// the readings are used.
#[derive(Clone)]
pub struct SharedCounter {
    bytes: Arc<AtomicU64>,
}

impl SharedCounter {
    /// A counter that starts at zero.
    pub fn new() -> SharedCounter {
        SharedCounter { bytes: Arc::new(AtomicU64::new(0)) }
    }

    /// Adds `n` bytes to the counter. Never blocks and never fails; beyond
    /// `u64::MAX` the counter wraps around.
    pub fn increment(&self, n: u64) {
        let _ = self.bytes.fetch_add(n, Ordering::Relaxed);
    }

    /// The counter's value at the moment of the call. Never blocks.
    pub fn read(&self) -> u64 {
        self.bytes.load(Ordering::Relaxed)
    }
}

} // verus!
