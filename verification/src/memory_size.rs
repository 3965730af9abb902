//! Memory quantities for a job's resource request.

use vstd::prelude::*;

verus! {

/// A memory request: a value together with its unit.  The unit is never
/// mixed within one value; SLURM renders them with the suffixes `M` and `G`.
#[derive(Clone, Copy, PartialEq, Eq, Structural, Debug)]
pub enum Memory {
    MegaByte(u64),
    GigaByte(u64),
}

} // verus!
