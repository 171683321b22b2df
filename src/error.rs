use vstd::prelude::*;

verus! {

/// Why a generation call was refused.
#[derive(Debug, Clone, Copy, PartialEq, Eq)]
pub enum MeshError {
    /// A dimension or the radius is not strictly positive.
    InvalidParameter,
    /// The requested subdivision depth would produce an unreasonable mesh.
    ResourceLimitExceeded,
}

} // verus!
