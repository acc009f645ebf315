//! A mock hash for testing Merkle constraints.
use crate::field::{fadd, M31};
use vstd::prelude::*;

verus! {

/// Mock hash gadget: the parent of two children is their field sum.
///
/// Not a cryptographic hash; it stands in for one when testing the shape of
/// Merkle constraints.
#[derive(Clone, Copy, Debug)]
pub struct Hash {}

impl Hash {
    /// The mock hash of two values: their sum in the field.
    pub fn evaluate(left_value: M31, right_value: M31) -> (r: M31)
        ensures
            r == fadd(left_value, right_value),
    {
        left_value.add(right_value)
    }
}

} // verus!
