//! The ways in which an operation on the tree can fail.

use vstd::prelude::*;

verus! {

/// Why an operation was refused. A refused operation changes nothing.
#[derive(Clone, Copy, Debug, PartialEq, Eq, Structural)]
pub enum MerkleError {
    /// More leaves were supplied than the store can hold.
    CapacityExceeded,
    /// A root was asked for over zero leaves.
    EmptyInput,
    /// A leaf was asked for at or beyond the number of stored leaves.
    IndexOutOfRange,
    /// The root was read before any root had been computed.
    NoRootComputed,
}

} // verus!
