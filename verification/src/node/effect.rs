//! What the node core takes in and what it asks its host to do.
//!
//! The core does no input or output of its own. The host feeds it what the
//! network delivered, as a [`SwarmInput`], and carries out the [`Effect`]s
//! the core answers with, in order.

use crate::node::event::{NodeEvent, NodeEventView, PeerAddr, PeerAddrView};
use crate::node::protocol::{TOPIC_BLOCK, TOPIC_TX, TOPIC_VERIFY};
use vstd::prelude::*;

verus! {

/// The gossip topics.
#[derive(Debug, Clone, Copy, PartialEq, Eq, Structural)]
pub enum Topic {
    /// New transactions.
    Tx,
    /// Block verifications.
    Verify,
    /// Newly sealed blocks.
    Block,
}

impl Topic {
    /// The name of the topic on the overlay.
    pub open spec fn name_spec(self) -> Seq<char> {
        match self {
            Topic::Tx => TOPIC_TX@,
            Topic::Verify => TOPIC_VERIFY@,
            Topic::Block => TOPIC_BLOCK@,
        }
    }

    /// The name of the topic on the overlay.
    pub fn name(&self) -> (name: &'static str)
        ensures
            name@ == self.name_spec(),
    {
        match self {
            Topic::Tx => TOPIC_TX,
            Topic::Verify => TOPIC_VERIFY,
            Topic::Block => TOPIC_BLOCK,
        }
    }
}

/// The mathematical content of an [`Effect`].
pub enum EffectView {
    Publish { topic: Topic, data: Seq<u8> },
    Request { peer: Seq<char>, data: Seq<u8> },
    Respond { data: Seq<u8> },
    Emit(NodeEventView),
    Disconnect(Seq<char>),
    AddAddress { peer: Seq<char>, addr: PeerAddrView },
    Bootstrap,
}

/// Something the host is to do for the core.
#[derive(Debug)]
pub enum Effect {
    /// Publish `data` on a gossip topic.
    Publish { topic: Topic, data: Vec<u8> },
    /// Send `data` as a sync request to `peer`.
    Request { peer: String, data: Vec<u8> },
    /// Answer the sync request being handled with `data`.
    Respond { data: Vec<u8> },
    /// Hand an event to the host's event channel.
    Emit(NodeEvent),
    /// Close the connections to a peer.
    Disconnect(String),
    /// Enter an address of a peer into the routing table.
    AddAddress { peer: String, addr: PeerAddr },
    /// Refresh the routing table.
    Bootstrap,
}

impl View for Effect {
    type V = EffectView;

    open spec fn view(&self) -> EffectView {
        match self {
            Effect::Publish { topic, data } => EffectView::Publish { topic: *topic, data: data@ },
            Effect::Request { peer, data } => EffectView::Request { peer: peer@, data: data@ },
            Effect::Respond { data } => EffectView::Respond { data: data@ },
            Effect::Emit(event) => EffectView::Emit(event@),
            Effect::Disconnect(peer) => EffectView::Disconnect(peer@),
            Effect::AddAddress { peer, addr } => EffectView::AddAddress {
                peer: peer@,
                addr: addr@,
            },
            Effect::Bootstrap => EffectView::Bootstrap,
        }
    }
}

impl DeepView for Effect {
    type V = EffectView;

    open spec fn deep_view(&self) -> EffectView {
        self@
    }
}

/// Appends one effect.
pub fn push_effect(effects: &mut Vec<Effect>, effect: Effect)
    ensures
        final(effects).deep_view() == old(effects).deep_view().push(effect@),
{
    effects.push(effect);
    assert(effects.deep_view() =~= old(effects).deep_view().push(effect@));
}

/// Appends the effects of `more`, in order.
pub fn append_effects(effects: &mut Vec<Effect>, more: Vec<Effect>)
    ensures
        final(effects).deep_view() == old(effects).deep_view() + more.deep_view(),
{
    let mut more = more;
    let ghost tail = more.deep_view();
    let ghost tail_items = more@;
    effects.append(&mut more);
    assert(effects.deep_view() =~= old(effects).deep_view() + tail) by {
        assert forall|i: int| 0 <= i < effects@.len() implies effects.deep_view()[i] == (
        old(effects).deep_view() + tail)[i] by {
            if i >= old(effects)@.len() {
                assert(effects@[i] == tail_items[i - old(effects)@.len()]);
            }
        }
    }
}

/// The mathematical content of a [`SwarmInput`].
pub enum SwarmInputView {
    NewListenAddr(PeerAddrView),
    ConnectionEstablished { peer_id: Seq<char>, addr: PeerAddrView },
    ConnectionClosed { peer_id: Seq<char> },
    Gossip { data: Seq<u8> },
    MdnsDiscovered(Seq<(Seq<char>, PeerAddrView)>),
    RoutingUpdated { peer: Seq<char>, addresses: Seq<PeerAddrView> },
    IdentifyReceived { peer_id: Seq<char>, listen_addrs: Seq<PeerAddrView> },
    PingFailed { peer: Seq<char> },
    SyncRequest { data: Seq<u8> },
    SyncResponse { peer: Seq<char>, data: Seq<u8> },
    Other,
}

/// What the network delivered to the node.
#[derive(Debug)]
pub enum SwarmInput {
    /// The node now listens on an address.
    NewListenAddr(PeerAddr),
    /// A connection to a peer was established.
    ConnectionEstablished { peer_id: String, addr: PeerAddr },
    /// The connection to a peer was closed.
    ConnectionClosed { peer_id: String },
    /// A message arrived on a gossip topic.
    Gossip { data: Vec<u8> },
    /// Local-network discovery found peers: one entry per address found.
    MdnsDiscovered(Vec<(String, PeerAddr)>),
    /// The routing table learned addresses of a peer.
    RoutingUpdated { peer: String, addresses: Vec<PeerAddr> },
    /// A peer identified itself with the addresses it listens on.
    IdentifyReceived { peer_id: String, listen_addrs: Vec<PeerAddr> },
    /// A peer failed to answer a ping.
    PingFailed { peer: String },
    /// A sync request arrived.
    SyncRequest { data: Vec<u8> },
    /// The answer to a sync request arrived from `peer`.
    SyncResponse { peer: String, data: Vec<u8> },
    /// Anything else; the core ignores it.
    Other,
}

impl View for SwarmInput {
    type V = SwarmInputView;

    open spec fn view(&self) -> SwarmInputView {
        match self {
            SwarmInput::NewListenAddr(addr) => SwarmInputView::NewListenAddr(addr@),
            SwarmInput::ConnectionEstablished { peer_id, addr } => {
                SwarmInputView::ConnectionEstablished { peer_id: peer_id@, addr: addr@ }
            },
            SwarmInput::ConnectionClosed { peer_id } => SwarmInputView::ConnectionClosed {
                peer_id: peer_id@,
            },
            SwarmInput::Gossip { data } => SwarmInputView::Gossip { data: data@ },
            SwarmInput::MdnsDiscovered(found) => SwarmInputView::MdnsDiscovered(
                found.deep_view(),
            ),
            SwarmInput::RoutingUpdated { peer, addresses } => SwarmInputView::RoutingUpdated {
                peer: peer@,
                addresses: addresses.deep_view(),
            },
            SwarmInput::IdentifyReceived { peer_id, listen_addrs } => {
                SwarmInputView::IdentifyReceived {
                    peer_id: peer_id@,
                    listen_addrs: listen_addrs.deep_view(),
                }
            },
            SwarmInput::PingFailed { peer } => SwarmInputView::PingFailed { peer: peer@ },
            SwarmInput::SyncRequest { data } => SwarmInputView::SyncRequest { data: data@ },
            SwarmInput::SyncResponse { peer, data } => SwarmInputView::SyncResponse {
                peer: peer@,
                data: data@,
            },
            SwarmInput::Other => SwarmInputView::Other,
        }
    }
}

} // verus!
