//! Error types for the non-empty containers.

use vstd::prelude::*;

verus! {

/// Failure kinds shared by all non-empty container types.
#[derive(Debug, Clone, Copy, PartialEq, Eq, Structural)]
pub enum NonEmptyError {
    /// Encountered an empty collection where a non-empty one was expected.
    Empty,
    /// A removal was refused because it would have emptied a container that
    /// protects its last remaining element.
    AlreadySingleton,
}

} // verus!
