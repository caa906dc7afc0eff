//! Non-empty containers.
//!
//! Non-emptiness is a very useful guarantee: instead of repeatedly checking
//! for emptiness before asking for the first or last element, callers work
//! with types that make an empty state unrepresentable through the public
//! interface. This crate provides non-empty versions of common container
//! types, each a thin wrapper around the corresponding general-purpose
//! collection, together with machine-checked contracts stating that every
//! operation preserves the at-least-one-element invariant.

pub mod errors;

pub mod ne_vec;
pub use ne_vec::NEVec;

pub mod ne_set;
pub use ne_set::NESet;

pub mod ne_ordered_set;
pub use ne_ordered_set::NEOrderedSet;

mod seq_facts;

pub use errors::NonEmptyError;
