//! Counters, as the metrics of the library expose them.

use vstd::prelude::*;

verus! {

/// The value of a counter after `n` was added to `value`: the sum, wrapped
/// to 64 bits.
pub open spec fn counter_add(value: u64, n: u64) -> u64 {
    ((value + n) % 0x1_0000_0000_0000_0000) as u64
}

/// A monotonic 64-bit counter that wraps on overflow.
#[derive(Debug, Clone, Copy, PartialEq, Eq, Structural)]
pub struct U64Counter {
    pub value: u64,
}

impl U64Counter {
    /// A counter at zero.
    pub fn new() -> (c: Self)
        ensures
            c.value == 0,
    {
        U64Counter { value: 0 }
    }

    /// Adds `n` to the counter.
    pub fn inc(&mut self, n: u64)
        ensures
            final(self).value == counter_add(old(self).value, n),
    {
        if self.value <= u64::MAX - n {
            self.value = self.value + n;
        } else {
            self.value = n - (u64::MAX - self.value) - 1;
        }
    }

    /// The value of the counter.
    pub fn fetch(&self) -> (v: u64)
        ensures
            v == self.value,
    {
        self.value
    }
}

} // verus!
