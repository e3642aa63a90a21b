//! Execution-cost estimates for the registry's two transitions.
//!
//! A deployment charges each call by a two-dimensional weight: reference
//! time and proof size. The estimates below are the measured base cost of
//! each transition plus its database traffic: a creation reads the counter
//! and writes the counter and the record, a destruction reads and writes the
//! record.

use vstd::prelude::*;

verus! {

/// The cost of one database read, in picoseconds of reference time.
pub const DB_READ_TIME: u64 = 25_000_000;

/// The cost of one database write, in picoseconds of reference time.
pub const DB_WRITE_TIME: u64 = 100_000_000;

/// A two-dimensional execution cost: reference time in picoseconds, and
/// proof size in bytes.
#[derive(Clone, Copy, PartialEq, Eq, Structural, Debug)]
pub struct Weight {
    pub ref_time: u64,
    pub proof_size: u64,
}

impl Weight {
    /// A weight from its two parts.
    pub fn from_parts(ref_time: u64, proof_size: u64) -> (r: Weight)
        ensures
            r == (Weight { ref_time, proof_size }),
    {
        Weight { ref_time, proof_size }
    }

    /// Adds another cost onto this one, capping each part at its maximum.
    pub fn saturating_add(self, other: Weight) -> (r: Weight)
        ensures
            r.ref_time == self.ref_time.saturating_add(other.ref_time),
            r.proof_size == self.proof_size.saturating_add(other.proof_size),
    {
        Weight {
            ref_time: self.ref_time.saturating_add(other.ref_time),
            proof_size: self.proof_size.saturating_add(other.proof_size),
        }
    }
}

/// The cost of each registry transition, as a deployment estimates it.
pub trait WeightInfo {
    /// The cost charged for one `create_tag` call.
    fn create_tag() -> Weight;

    /// The cost charged for one `destroy_tag` call.
    fn destroy_tag() -> Weight;
}

/// Cost estimates measured on reference hardware.
pub struct SubstrateWeight;

impl WeightInfo for SubstrateWeight {
    fn create_tag() -> (r: Weight)
        ensures
            r == (Weight {
                ref_time: (984_382_000 + DB_READ_TIME + 2 * DB_WRITE_TIME) as u64,
                proof_size: 1493,
            }),
    {
        Weight::from_parts(984_382_000, 1493).saturating_add(
            Weight { ref_time: DB_READ_TIME, proof_size: 0 },
        ).saturating_add(Weight { ref_time: 2 * DB_WRITE_TIME, proof_size: 0 })
    }

    fn destroy_tag() -> (r: Weight)
        ensures
            r == (Weight {
                ref_time: (1_077_628_000 + DB_READ_TIME + DB_WRITE_TIME) as u64,
                proof_size: 3795,
            }),
    {
        Weight::from_parts(1_077_628_000, 3795).saturating_add(
            Weight { ref_time: DB_READ_TIME, proof_size: 0 },
        ).saturating_add(Weight { ref_time: DB_WRITE_TIME, proof_size: 0 })
    }
}

} // verus!
