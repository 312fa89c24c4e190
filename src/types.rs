//! The tree representation of type arguments.

use vstd::prelude::*;

verus! {

/// The crate that defines a trait or a type constructor, as seen from the
/// crate on whose behalf an impl is judged.
#[derive(Debug, Clone, Copy, PartialEq, Eq, Structural)]
pub enum Crate {
    /// The crate on whose behalf an impl is judged.
    Local,
    /// Any other crate.
    Remote,
}

/// A type argument: a type constructor of some crate applied to arguments, or
/// the `i`-th generic parameter of the candidate impl.
#[derive(Debug)]
pub enum Type {
    Concrete(Crate, Vec<Type>),
    Parameter(usize),
}

} // verus!
