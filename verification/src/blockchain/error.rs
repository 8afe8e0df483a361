//! Failures of block and chain operations.

use crate::merkle::error::MerkleError;
use crate::transaction::error::TransactionError;
use vstd::prelude::*;

verus! {

/// What can go wrong when a block is built or the chain is changed.
#[derive(Debug)]
pub enum BlockchainError {
    /// The chain holds no block.
    Empty,
    /// No block has the requested height.
    BlockNotFound(u64),
    /// The chain is structurally broken; carries the reason.
    InvalidChain(String),
    /// Building the Merkle tree failed.
    Merkle(MerkleError),
    /// Hashing a transaction failed.
    Transaction(TransactionError),
    /// A block was to be built from no transactions.
    NoTransactions,
}

} // verus!
