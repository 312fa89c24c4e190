//! Orphan-rule admissibility: may the local crate implement a trait, defined in
//! some crate, for a given list of type arguments?
//!
//! A type argument is a tree of type constructors, each tagged with the crate
//! that defines it, with generic parameters of the impl at the leaves.

pub mod types;
pub mod index_set;
pub mod locality;
pub mod coverage;
pub mod admissibility;

pub use admissibility::{not_ok, ok};
pub use types::{Crate, Type};
