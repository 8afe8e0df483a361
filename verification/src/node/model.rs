//! The node core as a state machine over mathematical values: for each input
//! the state after it and the effects asked of the host.

use crate::blockchain::block::BlockView;
use crate::blockchain::blockchain::{adopts, candidate};
use crate::merkle::tree::{leaf_hashes, merkle_root};
use crate::node::config::{port_in_filter, DiscoveryMode};
use crate::node::effect::{EffectView, SwarmInputView, Topic};
use crate::node::event::{NodeEventView, PeerAddrView};
use crate::node::mode::NodeMode;
use crate::node::peers::{as_map, keys_distinct, known_addrs, merged, EntryView};
use crate::node::protocol::{
    gossip_bytes, parse_gossip, parse_request, parse_response, request_bytes, response_bytes,
    GossipMessageView, SyncRequest, SyncResponseView,
};
use crate::sync::manager::{estimated_size, SyncView};
use crate::transaction::transaction::TransactionView;
use vstd::prelude::*;
use vstd::std_specs::range::RangeInclusiveView;

verus! {

/// Number of pending transactions at which a block is sealed.
pub const BLOCK_BATCH_SIZE: usize = 10;

/// The state of the node core.
pub struct NodeView {
    pub local_peer_id: Seq<char>,
    pub mode: NodeMode,
    pub chain: Seq<BlockView>,
    pub sync: SyncView,
    pub pending: Seq<TransactionView>,
    pub discovered: Map<Seq<char>, Seq<PeerAddrView>>,
    pub connected: Map<Seq<char>, Seq<PeerAddrView>>,
    pub discovery_mode: DiscoveryMode,
    pub port_filter: Option<RangeInclusiveView<u16>>,
    pub port: u16,
}

/// A transition: the state after it and the effects it asks for, in order.
pub struct Step {
    pub state: NodeView,
    pub effects: Seq<EffectView>,
}

/// True iff `addr` names a port that passes `filter`.
pub open spec fn addr_passes(filter: Option<RangeInclusiveView<u16>>, addr: PeerAddrView) -> bool {
    addr.port matches Some(port) && port_in_filter(filter, port)
}

/// The addresses that pass the port filter; all of them without a filter.
pub open spec fn filter_addrs(filter: Option<RangeInclusiveView<u16>>, addrs: Seq<PeerAddrView>)
    -> Seq<PeerAddrView> {
    if filter is None {
        addrs
    } else {
        addrs.filter(|addr: PeerAddrView| addr_passes(filter, addr))
    }
}

/// The addresses of a discovery that are acted on. With a filter set, a
/// discovery none of whose addresses passes it is dropped: `None`.
pub open spec fn kept_addrs(filter: Option<RangeInclusiveView<u16>>, addrs: Seq<PeerAddrView>)
    -> Option<Seq<PeerAddrView>> {
    if filter is Some && filter_addrs(filter, addrs).len() == 0 {
        None
    } else {
        Some(filter_addrs(filter, addrs))
    }
}

/// One routing-table entry per address.
pub open spec fn add_addresses(peer: Seq<char>, addrs: Seq<PeerAddrView>) -> Seq<EffectView> {
    Seq::new(addrs.len(), |i: int| EffectView::AddAddress { peer, addr: addrs[i] })
}

/// The addresses found by local discovery, by peer: each address is appended
/// to those of its peer.
pub open spec fn grouped(found: Seq<(Seq<char>, PeerAddrView)>) -> Map<
    Seq<char>,
    Seq<PeerAddrView>,
>
    decreases found.len(),
{
    if found.len() == 0 {
        Map::empty()
    } else {
        let before = grouped(found.drop_last());
        before.insert(found.last().0, known_addrs(before, found.last().0).push(found.last().1))
    }
}

/// The sync counter after each of `blocks` was counted, in order.
pub open spec fn counted_all(sync: SyncView, blocks: Seq<BlockView>) -> SyncView
    decreases blocks.len(),
{
    if blocks.len() == 0 {
        sync
    } else {
        let before = counted_all(sync, blocks.drop_last());
        SyncView { downloaded_bytes: before.counted(estimated_size(blocks.last())), ..before }
    }
}

/// The blocks of a sync response that are looked at: those above genesis.
pub open spec fn above_genesis(blocks: Seq<BlockView>) -> Seq<BlockView> {
    blocks.filter(|b: BlockView| b.index > 0)
}

impl NodeView {
    /// The state with `peer` recorded as a verifier of the block at height
    /// `index`; unchanged when the chain has no such block.
    pub open spec fn verified(self, index: u64, peer: Seq<char>) -> NodeView {
        if index < self.chain.len() {
            NodeView {
                chain: self.chain.update(
                    index as int,
                    self.chain[index as int].with_verification(peer),
                ),
                ..self
            }
        } else {
            self
        }
    }

    /// What the host is told after `peer` verified the block at `index`:
    /// that the block is finalised, if it now is.
    pub open spec fn finality_events(self, index: u64, peer: Seq<char>) -> Seq<EffectView> {
        if index < self.chain.len() && self.chain[index as int].with_verification(
            peer,
        ).is_finalised() {
            seq![EffectView::Emit(NodeEventView::BlockFinalised { block_index: index })]
        } else {
            Seq::empty()
        }
    }

    /// A verification of another peer arrives: it is recorded.
    pub open spec fn on_verification(self, index: u64, peer: Seq<char>) -> Step {
        Step { state: self.verified(index, peer), effects: self.finality_events(index, peer) }
    }

    /// The node verifies the block at `index` itself: the verification is
    /// published, whether or not the local chain has the block, and recorded
    /// locally if it has.
    pub open spec fn on_send_verification(self, index: u64) -> Step {
        let message = GossipMessageView::BlockVerification {
            block_index: index,
            peer_id: self.local_peer_id,
        };
        Step {
            state: self.verified(index, self.local_peer_id),
            effects: seq![
                EffectView::Publish { topic: Topic::Verify, data: gossip_bytes(message) },
            ] + self.finality_events(index, self.local_peer_id),
        }
    }

    /// The block that seals the pending pool at time `timestamp`.
    pub open spec fn sealed_block(self, timestamp: i64) -> BlockView {
        BlockView {
            index: self.chain.len() as u64,
            prev_hash: self.chain.last().hash(),
            merkle_root: merkle_root(leaf_hashes(self.pending)),
            transactions: self.pending,
            timestamp,
            nonce: 0,
            verifications: Seq::empty(),
        }
    }

    /// The pending pool is sealed: the block is appended and announced, the
    /// pool is empty, and a full node verifies the block.
    pub open spec fn on_form_block(self, timestamp: i64) -> Step {
        let block = self.sealed_block(timestamp);
        let appended = NodeView { chain: self.chain.push(block), pending: Seq::empty(), ..self };
        let announce = seq![
            EffectView::Publish {
                topic: Topic::Block,
                data: gossip_bytes(GossipMessageView::Block(block)),
            },
        ];
        if self.mode == NodeMode::Full {
            let verify = appended.on_send_verification(block.index);
            Step { state: verify.state, effects: announce + verify.effects }
        } else {
            Step { state: appended, effects: announce }
        }
    }

    /// A transaction joins the pending pool; the pool is sealed when it has
    /// reached the batch size.
    pub open spec fn on_queued(self, tx: TransactionView, timestamp: i64) -> Step {
        let queued = NodeView { pending: self.pending.push(tx), ..self };
        if queued.pending.len() >= BLOCK_BATCH_SIZE {
            queued.on_form_block(timestamp)
        } else {
            Step { state: queued, effects: Seq::empty() }
        }
    }

    /// The host submits a transaction: it is published and queued.
    pub open spec fn on_broadcast(self, tx: TransactionView, timestamp: i64) -> Step {
        let queued = self.on_queued(tx, timestamp);
        Step {
            state: queued.state,
            effects: seq![
                EffectView::Publish {
                    topic: Topic::Tx,
                    data: gossip_bytes(GossipMessageView::Transaction(tx)),
                },
            ] + queued.effects,
        }
    }

    /// A gossip message arrives. Bytes that decode to no message are
    /// dropped. A transaction is reported and queued. A block is reported,
    /// and a full node verifies it. A verification is recorded.
    pub open spec fn on_gossip(self, data: Seq<u8>, timestamp: i64) -> Step {
        match parse_gossip(data) {
            None => Step { state: self, effects: Seq::empty() },
            Some(GossipMessageView::Transaction(tx)) => {
                let queued = self.on_queued(tx, timestamp);
                Step {
                    state: queued.state,
                    effects: seq![EffectView::Emit(NodeEventView::TransactionReceived(tx))]
                        + queued.effects,
                }
            },
            Some(GossipMessageView::Block(block)) => {
                let report = seq![EffectView::Emit(NodeEventView::BlockReceived(block))];
                if self.mode == NodeMode::Full {
                    let verify = self.on_send_verification(block.index);
                    Step { state: verify.state, effects: report + verify.effects }
                } else {
                    Step { state: self, effects: report }
                }
            },
            Some(GossipMessageView::BlockVerification { block_index, peer_id }) => {
                self.on_verification(block_index, peer_id)
            },
        }
    }

    /// The blocks a peer is sent that asks for those from `from_index` on.
    pub open spec fn blocks_from(self, from_index: u64) -> Seq<BlockView> {
        if from_index < self.chain.len() {
            self.chain.skip(from_index as int)
        } else {
            Seq::empty()
        }
    }

    /// A sync request arrives: it is answered with the tip height or with
    /// the blocks asked for. Bytes that decode to no request are dropped.
    pub open spec fn on_sync_request(self, data: Seq<u8>) -> Seq<EffectView> {
        match parse_request(data) {
            None => Seq::empty(),
            Some(SyncRequest::ChainTip) => seq![
                EffectView::Respond {
                    data: response_bytes(
                        SyncResponseView::ChainTip { tip_index: self.chain.last().index },
                    ),
                },
            ],
            Some(SyncRequest::BlocksFrom { from_index }) => seq![
                EffectView::Respond {
                    data: response_bytes(SyncResponseView::Blocks(self.blocks_from(from_index))),
                },
            ],
        }
    }

    /// A sync response arrives from `peer`. A tip above the local tip makes
    /// the node ask for the blocks above its own. Blocks are counted by the
    /// sync policy and offered to the longest-chain rule as the chain they
    /// make with the local one; an adopted chain is reported. Bytes that
    /// decode to no response are dropped.
    pub open spec fn on_sync_response(self, peer: Seq<char>, data: Seq<u8>) -> Step {
        match parse_response(data) {
            None => Step { state: self, effects: Seq::empty() },
            Some(SyncResponseView::ChainTip { tip_index }) => Step {
                state: self,
                effects: if tip_index > self.chain.last().index {
                    seq![
                        EffectView::Request {
                            peer,
                            data: request_bytes(
                                SyncRequest::BlocksFrom {
                                    from_index: (self.chain.last().index + 1) as u64,
                                },
                            ),
                        },
                    ]
                } else {
                    Seq::empty()
                },
            },
            Some(SyncResponseView::Blocks(blocks)) => {
                let fresh = above_genesis(blocks);
                let counted = NodeView { sync: counted_all(self.sync, fresh), ..self };
                match candidate(self.chain, fresh) {
                    Some(chain) => if adopts(self.chain, chain) {
                        Step {
                            state: NodeView { chain, ..counted },
                            effects: seq![
                                EffectView::Emit(
                                    NodeEventView::ChainSynced { new_length: chain.len() as usize },
                                ),
                            ],
                        }
                    } else {
                        Step { state: counted, effects: Seq::empty() }
                    },
                    None => Step { state: counted, effects: Seq::empty() },
                }
            },
        }
    }

    /// A connection is established: the peer moves from the discovered peers
    /// to the connected ones, the host is told, and the peer is asked for its
    /// tip.
    pub open spec fn on_connected(self, peer: Seq<char>, addr: PeerAddrView) -> Step {
        Step {
            state: NodeView {
                discovered: self.discovered.remove(peer),
                connected: self.connected.insert(
                    peer,
                    known_addrs(self.connected, peer).push(addr),
                ),
                ..self
            },
            effects: seq![
                EffectView::Emit(NodeEventView::PeerConnected(peer)),
                EffectView::Request { peer, data: request_bytes(SyncRequest::ChainTip) },
            ],
        }
    }

    /// A connection is closed: the peer leaves the connected peers and the
    /// host is told.
    pub open spec fn on_closed(self, peer: Seq<char>) -> Step {
        Step {
            state: NodeView { connected: self.connected.remove(peer), ..self },
            effects: seq![EffectView::Emit(NodeEventView::PeerDisconnected(peer))],
        }
    }

    /// Addresses of a peer were discovered. A connected peer is left alone,
    /// and so is a discovery that the port filter drops. Otherwise the
    /// addresses kept are added to those known of the peer and reported;
    /// with `route` set they are entered into the routing table first.
    pub open spec fn on_discovered(self, peer: Seq<char>, addrs: Seq<PeerAddrView>, route: bool)
        -> Step {
        if self.connected.dom().contains(peer) {
            Step { state: self, effects: Seq::empty() }
        } else {
            match kept_addrs(self.port_filter, addrs) {
                None => Step { state: self, effects: Seq::empty() },
                Some(kept) => Step {
                    state: NodeView {
                        discovered: self.discovered.insert(
                            peer,
                            merged(known_addrs(self.discovered, peer), kept),
                        ),
                        ..self
                    },
                    effects: (if route {
                        add_addresses(peer, kept)
                    } else {
                        Seq::empty()
                    }).push(
                        EffectView::Emit(
                            NodeEventView::PeerDiscovered { peer_id: peer, addrs: kept },
                        ),
                    ),
                },
            }
        }
    }

    /// The discoveries of `groups`, one peer after the other.
    pub open spec fn on_discovered_all(self, groups: Seq<EntryView>) -> Step
        decreases groups.len(),
    {
        if groups.len() == 0 {
            Step { state: self, effects: Seq::empty() }
        } else {
            let before = self.on_discovered_all(groups.drop_last());
            let last = before.state.on_discovered(groups.last().0, groups.last().1, true);
            Step { state: last.state, effects: before.effects + last.effects }
        }
    }

    /// The routing table learned addresses of a peer; ignored by a node that
    /// acts on local discovery only.
    pub open spec fn on_routing_updated(self, peer: Seq<char>, addrs: Seq<PeerAddrView>) -> Step {
        if self.discovery_mode == DiscoveryMode::Mdns {
            Step { state: self, effects: Seq::empty() }
        } else {
            self.on_discovered(peer, addrs, false)
        }
    }

    /// The host asks for a discovery scan: the port filter is replaced, both
    /// discovery mechanisms are acted on, and the routing table is refreshed.
    pub open spec fn on_trigger_discovery(self, port_range: Option<(u16, u16)>) -> Step {
        Step {
            state: NodeView {
                port_filter: match port_range {
                    Some((start, end)) => Some(
                        RangeInclusiveView { start, end, exhausted: false },
                    ),
                    None => None,
                },
                discovery_mode: DiscoveryMode::Both,
                ..self
            },
            effects: seq![EffectView::Bootstrap],
        }
    }
}

/// True iff `post` and `effects` are the core's reaction to `input` in
/// state `pre`. For local discovery the order in which the peers found are
/// taken is left open.
pub open spec fn swarm_step(
    pre: NodeView,
    input: SwarmInputView,
    post: NodeView,
    effects: Seq<EffectView>,
) -> bool {
    let step = Step { state: post, effects };
    match input {
        SwarmInputView::NewListenAddr(addr) => step == (Step {
            state: pre,
            effects: seq![EffectView::Emit(NodeEventView::Listening(addr))],
        }),
        SwarmInputView::ConnectionEstablished { peer_id, addr } => step == pre.on_connected(
            peer_id,
            addr,
        ),
        SwarmInputView::ConnectionClosed { peer_id } => step == pre.on_closed(peer_id),
        SwarmInputView::Gossip { data } => step == pre.on_gossip(
            data,
            post.chain.last().timestamp,
        ),
        SwarmInputView::MdnsDiscovered(found) => if pre.discovery_mode
            == DiscoveryMode::KademliaDht {
            step == (Step { state: pre, effects: Seq::empty() })
        } else {
            exists|groups: Seq<EntryView>|
                keys_distinct(groups) && as_map(groups) == grouped(found) && step
                    == #[trigger] pre.on_discovered_all(groups)
        },
        SwarmInputView::RoutingUpdated { peer, addresses } => step == pre.on_routing_updated(
            peer,
            addresses,
        ),
        SwarmInputView::IdentifyReceived { peer_id, listen_addrs } => step == (Step {
            state: pre,
            effects: add_addresses(peer_id, listen_addrs),
        }),
        SwarmInputView::PingFailed { peer } => step == (Step {
            state: pre,
            effects: seq![EffectView::Disconnect(peer)],
        }),
        SwarmInputView::SyncRequest { data } => step == (Step {
            state: pre,
            effects: pre.on_sync_request(data),
        }),
        SwarmInputView::SyncResponse { peer, data } => step == pre.on_sync_response(peer, data),
        SwarmInputView::Other => step == (Step { state: pre, effects: Seq::empty() }),
    }
}

} // verus!
