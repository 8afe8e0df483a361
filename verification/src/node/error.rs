//! Failures of node operations.

use crate::blockchain::error::BlockchainError;
use crate::sync::error::SyncError;
use vstd::prelude::*;

verus! {

/// What can go wrong in the node.
#[derive(Debug)]
pub enum NodeError {
    /// Listening, dialling or disconnecting failed; carries the reason.
    Transport(String),
    /// The gossip overlay rejected a publish; carries the reason.
    Gossipsub(String),
    /// A message could not be encoded or decoded; carries the reason.
    Serialisation(String),
    /// A chain operation failed.
    Blockchain(BlockchainError),
    /// The sync policy failed.
    Sync(SyncError),
    /// An input or output operation failed; carries the reason.
    Io(String),
    /// A block was to be sealed while the pending pool was empty.
    NoPendingTransactions,
}

} // verus!
