//! How much work a node does on behalf of the network.

use vstd::prelude::*;

verus! {

/// The operation mode of a node.
#[derive(Debug, Clone, Copy, PartialEq, Eq, Structural)]
pub enum NodeMode {
    /// Full participant: takes part in finalisation by sending verifications
    /// for the blocks it has accepted.
    Full,
    /// Relay only: passes transactions and block announcements on and keeps
    /// the chain, but sends no verifications.
    Gossip,
}

impl Default for NodeMode {
    fn default() -> (mode: Self)
        ensures
            mode == NodeMode::Full,
    {
        NodeMode::Full
    }
}

} // verus!
