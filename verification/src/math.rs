//! Shared error type of the vector math modules.

use vstd::prelude::*;

verus! {

/// Failure of a vector-math operation whose result the caller must act on.
#[derive(Clone, Copy, Debug, PartialEq, Eq, Structural)]
pub enum MathError {
    /// An orthonormal basis was requested from (near-)parallel vectors.
    OrthonormalBasisError,
}

} // verus!
