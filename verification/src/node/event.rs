//! What a running node tells its host, and the peer addresses it speaks of.

use crate::blockchain::block::{Block, BlockView};
use crate::transaction::transaction::{Transaction, TransactionView};
use vstd::prelude::*;

verus! {

/// The mathematical content of a [`PeerAddr`].
pub struct PeerAddrView {
    pub text: Seq<char>,
    pub port: Option<u16>,
}

/// A network address of a peer: its textual form, and the TCP or UDP port it
/// names, if it names one.
#[derive(Debug, PartialEq, Eq)]
pub struct PeerAddr {
    pub text: String,
    pub port: Option<u16>,
}

impl View for PeerAddr {
    type V = PeerAddrView;

    open spec fn view(&self) -> PeerAddrView {
        PeerAddrView { text: self.text@, port: self.port }
    }
}

impl DeepView for PeerAddr {
    type V = PeerAddrView;

    open spec fn deep_view(&self) -> PeerAddrView {
        self@
    }
}

impl Clone for PeerAddr {
    fn clone(&self) -> (copy: Self)
        ensures
            copy@ == self@,
    {
        PeerAddr { text: self.text.clone(), port: self.port }
    }
}

impl PeerAddr {
    /// True when both addresses have the same text and port.
    pub fn same(&self, other: &PeerAddr) -> (same: bool)
        ensures
            same == (self@ == other@),
    {
        let ports_equal = match (self.port, other.port) {
            (None, None) => true,
            (Some(a), Some(b)) => a == b,
            _ => false,
        };
        ports_equal && self.text == other.text
    }
}

/// Copies a list of addresses.
pub fn clone_addrs(addrs: &Vec<PeerAddr>) -> (copy: Vec<PeerAddr>)
    ensures
        copy.deep_view() == addrs.deep_view(),
{
    let mut copy: Vec<PeerAddr> = Vec::new();
    let mut i: usize = 0;
    while i < addrs.len()
        invariant
            i <= addrs@.len(),
            copy@.len() == i,
            forall|j: int| 0 <= j < i ==> (#[trigger] copy@[j])@ == addrs@[j]@,
        decreases addrs@.len() - i,
    {
        copy.push(addrs[i].clone());
        i += 1;
    }
    assert(copy.deep_view() =~= addrs.deep_view());
    copy
}

/// True when `addr` is among `addrs`.
pub fn has_addr(addrs: &Vec<PeerAddr>, addr: &PeerAddr) -> (found: bool)
    ensures
        found == addrs.deep_view().contains(addr@),
{
    let mut i: usize = 0;
    while i < addrs.len()
        invariant
            i <= addrs@.len(),
            forall|j: int| 0 <= j < i ==> addrs.deep_view()[j] != addr@,
        decreases addrs@.len() - i,
    {
        if addrs[i].same(addr) {
            assert(addrs.deep_view()[i as int] == addr@);
            return true;
        }
        i += 1;
    }
    false
}

/// The mathematical content of a [`NodeEvent`].
pub enum NodeEventView {
    PeerConnected(Seq<char>),
    PeerDisconnected(Seq<char>),
    PeerDiscovered { peer_id: Seq<char>, addrs: Seq<PeerAddrView> },
    TransactionReceived(TransactionView),
    BlockReceived(BlockView),
    BlockFinalised { block_index: u64 },
    ChainSynced { new_length: usize },
    Listening(PeerAddrView),
}

/// Events a running node emits for its host.
#[derive(Debug)]
pub enum NodeEvent {
    /// A peer has connected.
    PeerConnected(String),
    /// A peer has disconnected.
    PeerDisconnected(String),
    /// A peer was discovered but is not connected.
    PeerDiscovered { peer_id: String, addrs: Vec<PeerAddr> },
    /// A transaction has arrived by gossip.
    TransactionReceived(Transaction),
    /// A block has arrived by gossip.
    BlockReceived(Block),
    /// A block has been verified by enough peers.
    BlockFinalised { block_index: u64 },
    /// The local chain was replaced by a longer remote chain.
    ChainSynced { new_length: usize },
    /// The node listens on the given address.
    Listening(PeerAddr),
}

impl View for NodeEvent {
    type V = NodeEventView;

    open spec fn view(&self) -> NodeEventView {
        match self {
            NodeEvent::PeerConnected(peer) => NodeEventView::PeerConnected(peer@),
            NodeEvent::PeerDisconnected(peer) => NodeEventView::PeerDisconnected(peer@),
            NodeEvent::PeerDiscovered { peer_id, addrs } => NodeEventView::PeerDiscovered {
                peer_id: peer_id@,
                addrs: addrs.deep_view(),
            },
            NodeEvent::TransactionReceived(tx) => NodeEventView::TransactionReceived(tx@),
            NodeEvent::BlockReceived(block) => NodeEventView::BlockReceived(block@),
            NodeEvent::BlockFinalised { block_index } => NodeEventView::BlockFinalised {
                block_index: *block_index,
            },
            NodeEvent::ChainSynced { new_length } => NodeEventView::ChainSynced {
                new_length: *new_length,
            },
            NodeEvent::Listening(addr) => NodeEventView::Listening(addr@),
        }
    }
}

} // verus!
