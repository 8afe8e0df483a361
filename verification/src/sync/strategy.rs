//! The strategies a node can follow when it syncs blocks from its peers.

use vstd::prelude::*;

verus! {

/// Controls which blocks a node will take from its peers.
#[derive(Debug, Clone, Copy, PartialEq, Eq, Structural)]
pub enum SyncStrategy {
    /// Take the blocks whose timestamp lies in the window, both ends included.
    TimeRange { from: i64, to: i64 },
    /// Take blocks in order while the estimated size of all blocks taken
    /// stays within `max_bytes`.
    SizeLimit { max_bytes: u64 },
    /// Take nothing proactively; only the longest-chain rule adopts blocks.
    OnDemand,
}

impl Default for SyncStrategy {
    fn default() -> (strategy: Self)
        ensures
            strategy == SyncStrategy::OnDemand,
    {
        SyncStrategy::OnDemand
    }
}

} // verus!
