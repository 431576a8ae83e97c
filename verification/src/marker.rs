//! Capability markers: two disjoint tags telling reduced types apart from
//! complete types.
//!
//! A reduced companion type carries [`Unpatched`]; the original record type
//! carries [`Patched`].  The merge operation is typed so that its source must
//! be reduced-capable and its result complete-capable, which rules out by
//! construction running the merge on an already complete value or treating a
//! reduced value as a complete one.  The tags have no runtime representation.

use vstd::prelude::*;

verus! {

/// Tag carried by a reduced (incomplete) record type.
pub trait Unpatched {

}

/// Tag carried by a complete record type.
pub trait Patched {

}

} // verus!
