//! Failures of the sync policy.

use crate::blockchain::error::BlockchainError;
use vstd::prelude::*;

verus! {

/// What can go wrong when blocks are selected for sync.
#[derive(Debug)]
pub enum SyncError {
    /// A time range whose start lies after its end.
    InvalidTimeRange,
    /// A chain operation failed.
    Blockchain(BlockchainError),
}

} // verus!
