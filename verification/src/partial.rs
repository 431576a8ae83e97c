//! The wrapper state container: a two-variant value holding either a reduced
//! instance or the corresponding complete instance.

use vstd::prelude::*;

use crate::patch::Patchable;

verus! {

/// Holds a record instance that is either still reduced (`Unpatched`) or
/// already complete (`Patched`).
///
/// The only state transition is [`PartialBox::patch`], which completes a
/// reduced instance and leaves a complete one untouched.
pub enum PartialBox<T> where T: Patchable {
    Unpatched(T),
    Patched(T::Patched),
}

impl<T> PartialBox<T> where T: Patchable {
    /// Apply the completion data.
    ///
    /// A reduced instance is merged with `value` and the wrapper moves to the
    /// complete state.  An already complete instance is returned unchanged and
    /// `value` is discarded; repeating the transition is always safe.
    pub fn patch(self, value: T::Args) -> (r: Self)
        ensures
            r is Patched,
            self is Patched ==> r == self,
            self is Unpatched ==> r == PartialBox::<T>::Patched(
                self->Unpatched_0.patch_spec(value),
            ),
    {
        match self {
            PartialBox::Unpatched(unpatched) => PartialBox::Patched(unpatched.patch(value)),
            PartialBox::Patched(patched) => PartialBox::Patched(patched),
        }
    }
}

} // verus!
