//! Failures of Merkle tree construction and lookup.

use vstd::prelude::*;

verus! {

/// What can go wrong when a tree is built or queried.
#[derive(Debug)]
pub enum MerkleError {
    /// The tree has no leaves.
    Empty,
    /// No transaction with the requested identifier is in the tree.
    NotFound,
    /// A transaction could not be hashed; carries the reason.
    HashFailed(String),
}

} // verus!
