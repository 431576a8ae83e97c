//! The completion contract: a reduced type knows which extra data it needs
//! and how to merge that data with its own fields into the complete type.

use vstd::prelude::*;

use crate::marker::{Patched, Unpatched};

verus! {

/// Implemented by a reduced type to describe its transition to the complete
/// type.
///
/// `Args` is the ordered tuple of deferred field types, and `Patched` is the
/// complete record type.  The merge itself is `patch`; `patch_spec` is its
/// mathematical description, which every implementation must meet.
pub trait Patchable: Unpatched {
    type Args;

    type Patched: Patched;

    /// What the merge returns for a given reduced value and deferred data.
    /// The default leaves the result unconstrained; an implementation that
    /// wants `patch` verified supplies its own.
    open spec fn patch_spec(&self, args: Self::Args) -> Self::Patched {
        vstd::pervasive::arbitrary()
    }

    /// Merge the held immediate fields with the deferred data into a
    /// complete value.
    fn patch(&self, args: Self::Args) -> (r: Self::Patched)
        ensures
            r == self.patch_spec(args),
    ;
}

} // verus!
