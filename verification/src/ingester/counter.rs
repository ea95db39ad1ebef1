//! The count of non-empty partitions of a namespace, with its cap.

use vstd::prelude::*;

verus! {

/// A counter of the non-empty partitions of one namespace. A partition
/// takes a permit when it goes from empty to non-empty and returns it when
/// it is empty again.
#[derive(Debug)]
pub struct PartitionCounter {
    current: usize,
    max: usize,
}

impl PartitionCounter {
    /// The number of permits taken.
    pub closed spec fn value(&self) -> nat {
        self.current as nat
    }

    /// The number of permits there are.
    pub closed spec fn limit(&self) -> nat {
        self.max as nat
    }

    /// A counter with `max` permits, none of them taken.
    pub fn new(max: usize) -> (c: Self)
        ensures
            c.value() == 0,
            c.limit() == max,
    {
        PartitionCounter { current: 0, max }
    }

    /// Takes a permit. Fails, and changes nothing, when all are taken.
    pub fn inc(&mut self) -> (res: Result<(), usize>)
        ensures
            final(self).limit() == old(self).limit(),
            old(self).value() < old(self).limit() ==> res is Ok && final(self).value() == old(
                self,
            ).value() + 1,
            old(self).value() >= old(self).limit() ==> res == Err::<(), usize>(
                old(self).limit() as usize,
            ) && final(self).value() == old(self).value(),
    {
        if self.current < self.max {
            self.current = self.current + 1;
            Ok(())
        } else {
            Err(self.max)
        }
    }

    /// Returns a permit.
    pub fn dec(&mut self)
        requires
            old(self).value() > 0,
        ensures
            final(self).limit() == old(self).limit(),
            final(self).value() == old(self).value() - 1,
    {
        self.current = self.current - 1;
    }

    /// The number of permits taken.
    pub fn read(&self) -> (n: usize)
        ensures
            n == self.value(),
    {
        self.current
    }
}

} // verus!
