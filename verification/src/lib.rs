//! Schema-driven splitting of a record type into an incomplete ("unpatched")
//! phase and a complete ("patched") phase.
//!
//! Given a record definition in which some fields are marked as deferred, the
//! library derives a reduced companion type holding only the immediate fields,
//! an ordered completion contract listing exactly the deferred field types,
//! and a merge plan that rebuilds a complete value from a reduced value plus
//! the deferred data.  A two-variant wrapper tracks whether completion has
//! happened, and disjoint capability traits keep reduced and complete types
//! from being confused.

pub mod emit;
pub mod marker;
pub mod merge;
pub mod partial;
pub mod patch;
pub mod reduce;
pub mod schema;
