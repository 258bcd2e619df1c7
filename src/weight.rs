//! Two-dimensional weights: execution time and proof size.

use vstd::prelude::*;

verus! {

/// An amount of block resources: reference time and proof size, each a `u64`.
#[derive(Clone, Copy, Debug, PartialEq, Eq, Structural)]
pub struct Weight {
    pub ref_time: u64,
    pub proof_size: u64,
}

/// Whether a weight of `ref_time` and `proof_size`, as unbounded integers, is at most `b`
/// in both dimensions.
pub open spec fn fits_within(ref_time: int, proof_size: int, b: Weight) -> bool {
    ref_time <= b.ref_time && proof_size <= b.proof_size
}

/// `x` stopped at `u64::MAX`.
pub open spec fn saturate(x: int) -> u64 {
    if x <= u64::MAX {
        x as u64
    } else {
        u64::MAX
    }
}

/// The sum of two weights in each dimension, stopped at `u64::MAX`.
pub open spec fn saturated_sum(a: Weight, b: Weight) -> Weight {
    Weight {
        ref_time: saturate(a.ref_time + b.ref_time),
        proof_size: saturate(a.proof_size + b.proof_size),
    }
}

impl Weight {
    pub fn from_parts(ref_time: u64, proof_size: u64) -> (r: Self)
        ensures
            r.ref_time == ref_time,
            r.proof_size == proof_size,
    {
        Weight { ref_time, proof_size }
    }

    pub fn zero() -> (r: Self)
        ensures
            r.ref_time == 0,
            r.proof_size == 0,
    {
        Weight { ref_time: 0, proof_size: 0 }
    }

    pub fn ref_time(&self) -> (r: u64)
        ensures
            r == self.ref_time,
    {
        self.ref_time
    }

    pub fn proof_size(&self) -> (r: u64)
        ensures
            r == self.proof_size,
    {
        self.proof_size
    }

    /// The sum in each dimension, stopping at `u64::MAX`.
    pub fn saturating_add(self, rhs: Self) -> (r: Self)
        ensures
            r == saturated_sum(self, rhs),
    {
        Weight {
            ref_time: self.ref_time.saturating_add(rhs.ref_time),
            proof_size: self.proof_size.saturating_add(rhs.proof_size),
        }
    }

    /// The sum in each dimension, or `None` where either overflows.
    pub fn checked_add(&self, rhs: &Self) -> (r: Option<Self>)
        ensures
            (self.ref_time + rhs.ref_time <= u64::MAX && self.proof_size + rhs.proof_size
                <= u64::MAX) ==> r == Some(
                (Weight {
                    ref_time: (self.ref_time + rhs.ref_time) as u64,
                    proof_size: (self.proof_size + rhs.proof_size) as u64,
                }),
            ),
            (self.ref_time + rhs.ref_time > u64::MAX || self.proof_size + rhs.proof_size
                > u64::MAX) ==> r is None,
    {
        match (self.ref_time.checked_add(rhs.ref_time), self.proof_size.checked_add(rhs.proof_size)) {
            (Some(ref_time), Some(proof_size)) => Some(Weight { ref_time, proof_size }),
            _ => None,
        }
    }

    /// Whether `self` is at most `other` in both dimensions.
    pub fn all_lte(self, other: Self) -> (r: bool)
        ensures
            r == (self.ref_time <= other.ref_time && self.proof_size <= other.proof_size),
    {
        self.ref_time <= other.ref_time && self.proof_size <= other.proof_size
    }

    /// Whether `self` is at least `other` in both dimensions.
    pub fn all_gte(self, other: Self) -> (r: bool)
        ensures
            r == (self.ref_time >= other.ref_time && self.proof_size >= other.proof_size),
    {
        self.ref_time >= other.ref_time && self.proof_size >= other.proof_size
    }
}

} // verus!
