//! Names for the vectors that pass between the parts of a network.

use vstd::prelude::*;

verus! {

/// The state vector of a reservoir.
pub type State<S> = Vec<S>;

/// An input vector.
pub type Input<S> = Vec<S>;

/// An output vector.
pub type Output<S> = Vec<S>;

} // verus!
