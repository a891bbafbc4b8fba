use vstd::prelude::*;

verus! {

/// Total elapsed time and number of completed work units accumulated for one
/// label since the start of the current accumulation window.
#[derive(Clone, Copy, Debug, PartialEq, Eq, Structural)]
pub struct DurationRecord {
    /// Sum of the elapsed times of all closed work units, in nanoseconds.
    pub duration: u128,
    /// Number of closed work units.
    pub count: usize,
}

/// `a + b`, capped at `u128::MAX`.
pub open spec fn sat_add_u128(a: u128, b: u128) -> u128 {
    if a + b <= u128::MAX {
        (a + b) as u128
    } else {
        u128::MAX
    }
}

/// `a + b`, capped at `usize::MAX`.
pub open spec fn sat_add_usize(a: usize, b: usize) -> usize {
    if a + b <= usize::MAX {
        (a + b) as usize
    } else {
        usize::MAX
    }
}

impl DurationRecord {
    /// The record before any work unit with its label has closed.
    pub open spec fn zero() -> DurationRecord {
        DurationRecord { duration: 0, count: 0 }
    }

    /// The record after one more work unit closes with the given elapsed time.
    pub open spec fn after_close(self, elapsed_nanos: u128) -> DurationRecord {
        DurationRecord {
            duration: sat_add_u128(self.duration, elapsed_nanos),
            count: sat_add_usize(self.count, 1),
        }
    }

    /// Folds one close event into the record: adds the elapsed time to the
    /// running total and increments the count, both saturating at their
    /// maximum rather than overflowing.
    pub fn add_close(&mut self, elapsed_nanos: u128)
        ensures
            *final(self) == old(self).after_close(elapsed_nanos),
    {
        self.duration = if self.duration <= u128::MAX - elapsed_nanos {
            self.duration + elapsed_nanos
        } else {
            u128::MAX
        };
        self.count = if self.count < usize::MAX {
            self.count + 1
        } else {
            usize::MAX
        };
    }
}

impl Default for DurationRecord {
    /// A fresh record: zero duration, zero count.
    fn default() -> (r: Self)
        ensures
            r == DurationRecord::zero(),
    {
        DurationRecord { duration: 0, count: 0 }
    }
}

} // verus!
