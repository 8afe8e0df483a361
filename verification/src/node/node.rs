//! The node core: the state a running node owns and its reaction to every
//! input. The reactions are computed here; the host performs them.

use crate::blockchain::block::{Block, BlockView};
use crate::blockchain::blockchain::{chain_valid, chain_wf, Blockchain};
use crate::blockchain::error::BlockchainError;
use crate::node::config::{filter_view, port_passes, DiscoveryMode, NodeConfig};
use crate::node::effect::{
    append_effects, push_effect, Effect, EffectView, SwarmInput, SwarmInputView, Topic,
};
use crate::node::error::NodeError;
use crate::node::event::{clone_addrs, NodeEvent, NodeEventView, PeerAddr, PeerAddrView};
use crate::node::mode::NodeMode;
use crate::node::model::{
    above_genesis, add_addresses, addr_passes, counted_all, filter_addrs, grouped, swarm_step,
    NodeView, Step, BLOCK_BATCH_SIZE,
};
use crate::node::peers::{as_map, keys_distinct, EntryView, PeerIndex};
use crate::node::protocol::{
    decode_gossip, decode_request, decode_response, encode_blocks_response, encode_gossip,
    encode_request, encode_response, GossipMessage, SyncRequest, SyncResponse,
};
use crate::sync::manager::SyncManager;
use crate::transaction::transaction::{Transaction, TransactionView};
use std::ops::RangeInclusive;
use vstd::prelude::*;

verus! {

/// The node core. It owns the chain, the pending pool, the sync policy and
/// the peer index, and is changed only by its own methods, each of which
/// answers with the effects the host is to carry out.
#[derive(Debug)]
pub struct Node {
    local_peer_id: String,
    mode: NodeMode,
    blockchain: Blockchain,
    sync_manager: SyncManager,
    pending_transactions: Vec<Transaction>,
    /// Peers found by discovery but not connected.
    discovered_peers: PeerIndex,
    /// Peers connected now.
    connected_peers_map: PeerIndex,
    /// Which discovery events are acted on.
    discovery_mode: DiscoveryMode,
    /// Optional port filter for discovered addresses.
    discovery_port_range: Option<RangeInclusive<u16>>,
    /// The port the node listens on.
    port: u16,
}

impl View for Node {
    type V = NodeView;

    closed spec fn view(&self) -> NodeView {
        NodeView {
            local_peer_id: self.local_peer_id@,
            mode: self.mode,
            chain: self.blockchain@,
            sync: self.sync_manager@,
            pending: self.pending_transactions.deep_view(),
            discovered: self.discovered_peers@,
            connected: self.connected_peers_map@,
            discovery_mode: self.discovery_mode,
            port_filter: filter_view(self.discovery_port_range),
            port: self.port,
        }
    }
}

impl Node {
    /// The peer indices hold no peer twice.
    pub closed spec fn indices_wf(&self) -> bool {
        self.discovered_peers.wf() && self.connected_peers_map.wf()
    }

    /// What holds between any two reactions but for the size of the pending
    /// pool: the chain is well formed and valid.
    pub open spec fn steady(&self) -> bool {
        &&& self.indices_wf()
        &&& chain_wf(self@.chain)
        &&& chain_valid(self@.chain)
    }

    /// What holds of the core between any two reactions: the chain is well
    /// formed and valid, and the pending pool is below the batch size.
    pub open spec fn wf(&self) -> bool {
        self.steady() && self@.pending.len() < BLOCK_BATCH_SIZE
    }

    /// The core of a node that has just started: the genesis chain, an empty
    /// pending pool, no peers, and the configured modes.
    pub fn new(config: NodeConfig, local_peer_id: String) -> (node: Self)
        ensures
            node.wf(),
            node@ == (NodeView {
                local_peer_id: local_peer_id@,
                mode: config.mode,
                chain: seq![crate::blockchain::block::genesis_spec()],
                sync: crate::sync::manager::SyncView {
                    strategy: config.sync_strategy,
                    downloaded_bytes: 0,
                },
                pending: Seq::empty(),
                discovered: Map::empty(),
                connected: Map::empty(),
                discovery_mode: config.discovery_mode,
                port_filter: filter_view(config.discovery_port_range),
                port: config.port,
            }),
    {
        let pending_transactions: Vec<Transaction> = Vec::new();
        assert(pending_transactions.deep_view() =~= Seq::<TransactionView>::empty());
        Node {
            local_peer_id,
            mode: config.mode,
            blockchain: Blockchain::new(),
            sync_manager: SyncManager::new(config.sync_strategy),
            pending_transactions,
            discovered_peers: PeerIndex::new(),
            connected_peers_map: PeerIndex::new(),
            discovery_mode: config.discovery_mode,
            discovery_port_range: config.discovery_port_range,
            port: config.port,
        }
    }

    /// The identifier of this node.
    pub fn peer_id(&self) -> (id: &String)
        ensures
            id@ == self@.local_peer_id,
    {
        &self.local_peer_id
    }

    /// The local chain.
    pub fn blockchain(&self) -> (chain: &Blockchain)
        ensures
            chain@ == self@.chain,
    {
        &self.blockchain
    }

    /// The transactions not yet sealed into a block.
    pub fn pending_transactions(&self) -> (pending: &Vec<Transaction>)
        ensures
            pending.deep_view() == self@.pending,
    {
        &self.pending_transactions
    }

    /// The sync policy with its byte counter.
    pub fn sync_manager(&self) -> (manager: &SyncManager)
        ensures
            manager@ == self@.sync,
    {
        &self.sync_manager
    }

    /// The connected peers and their addresses, each peer once.
    pub fn connected_peers(&self) -> (list: Vec<(String, Vec<PeerAddr>)>)
        requires
            self.wf(),
        ensures
            keys_distinct(list.deep_view()),
            as_map(list.deep_view()) == self@.connected,
    {
        self.connected_peers_map.snapshot()
    }

    /// The peers discovered but not connected, each peer once.
    pub fn discovered_peers(&self) -> (list: Vec<(String, Vec<PeerAddr>)>)
        requires
            self.wf(),
        ensures
            keys_distinct(list.deep_view()),
            as_map(list.deep_view()) == self@.discovered,
    {
        self.discovered_peers.snapshot()
    }

    /// Records the verification of `peer_id` for the block at `block_index`
    /// and reports the block as finalised if it now is.
    fn record_verification(&mut self, block_index: u64, peer_id: String) -> (r: (
        Vec<Effect>,
        Result<(), NodeError>,
    ))
        requires
            old(self).steady(),
        ensures
            final(self).steady(),
            final(self)@.pending == old(self)@.pending,
            (Step { state: final(self)@, effects: r.0.deep_view() }) == old(self)@.on_verification(
                block_index,
                peer_id@,
            ),
            block_index < old(self)@.chain.len() <==> r.1 is Ok,
            r.1 matches Err(e) ==> e == NodeError::Blockchain(
                BlockchainError::BlockNotFound(block_index),
            ),
    {
        let mut effects: Vec<Effect> = Vec::new();
        assert(effects.deep_view() =~= Seq::<EffectView>::empty());
        match self.blockchain.verify_block(block_index, peer_id) {
            Ok(finalised) => {
                if finalised {
                    push_effect(
                        &mut effects,
                        Effect::Emit(NodeEvent::BlockFinalised { block_index }),
                    );
                    assert(effects.deep_view() =~= old(self)@.finality_events(
                        block_index,
                        peer_id@,
                    ));
                }
                (effects, Ok(()))
            },
            Err(e) => (effects, Err(NodeError::Blockchain(e))),
        }
    }

    /// Publishes this node's verification of the block at `block_index` and
    /// records it locally. The verification is published whether or not the
    /// local chain has the block; the result is `BlockNotFound`, and only
    /// so, when it has not.
    pub fn send_verification(&mut self, block_index: u64) -> (r: (
        Vec<Effect>,
        Result<(), NodeError>,
    ))
        requires
            old(self).steady(),
        ensures
            final(self).steady(),
            final(self)@.pending == old(self)@.pending,
            (Step { state: final(self)@, effects: r.0.deep_view() })
                == old(self)@.on_send_verification(block_index),
            block_index < old(self)@.chain.len() <==> r.1 is Ok,
            r.1 matches Err(e) ==> e == NodeError::Blockchain(
                BlockchainError::BlockNotFound(block_index),
            ),
    {
        let mut effects: Vec<Effect> = Vec::new();
        assert(effects.deep_view() =~= Seq::<EffectView>::empty());
        let message = GossipMessage::BlockVerification {
            block_index,
            peer_id: self.local_peer_id.clone(),
        };
        match encode_gossip(&message) {
            Ok(data) => {
                push_effect(&mut effects, Effect::Publish { topic: Topic::Verify, data });
            },
            Err(_) => {},
        }
        let (events, result) = self.record_verification(block_index, self.local_peer_id.clone());
        let ghost published = effects.deep_view();
        append_effects(&mut effects, events);
        assert(published =~= seq![published[0]]);
        (effects, result)
    }

    /// Seals the pending pool into a block, appends it to the chain and
    /// announces it; a full node verifies the block.
    fn seal(&mut self) -> (effects: Vec<Effect>)
        requires
            old(self).steady(),
            old(self)@.pending.len() >= 1,
        ensures
            final(self).wf(),
            (Step { state: final(self)@, effects: effects.deep_view() })
                == old(self)@.on_form_block(final(self)@.chain.last().timestamp),
    {
        let mut effects: Vec<Effect> = Vec::new();
        assert(effects.deep_view() =~= Seq::<EffectView>::empty());
        let mut txs: Vec<Transaction> = Vec::new();
        std::mem::swap(&mut txs, &mut self.pending_transactions);
        assert(self.pending_transactions.deep_view() =~= Seq::<TransactionView>::empty());
        let ghost before = old(self)@;
        let (block_index, announcement) = match self.blockchain.add_block(txs) {
            Ok(block) => {
                assert(block@ == before.sealed_block(block@.timestamp)) by {
                    assert(block@.verifications =~= Seq::<Seq<char>>::empty());
                }
                (block.index, GossipMessage::Block(block.clone()))
            },
            Err(_) => {
                return effects;
            },
        };
        let ghost block = self@.chain.last();
        match encode_gossip(&announcement) {
            Ok(data) => {
                push_effect(&mut effects, Effect::Publish { topic: Topic::Block, data });
            },
            Err(_) => {},
        }
        let ghost announce = effects.deep_view();
        assert(announce =~= seq![announce[0]]);
        if self.mode == NodeMode::Full {
            let (more, _) = self.send_verification(block_index);
            append_effects(&mut effects, more);
            assert(self@.chain.last().timestamp == block.timestamp);
        }
        effects
    }

    /// Seals the pending pool into a block and announces it. Fails with
    /// `NoPendingTransactions`, and only so, when the pool is empty; nothing
    /// changes then.
    pub fn form_block(&mut self) -> (r: Result<Vec<Effect>, NodeError>)
        requires
            old(self).wf(),
        ensures
            final(self).wf(),
            old(self)@.pending.len() == 0 <==> r is Err,
            r matches Err(e) ==> e is NoPendingTransactions && final(self)@ == old(self)@,
            r matches Ok(effects) ==> (Step { state: final(self)@, effects: effects.deep_view() })
                == old(self)@.on_form_block(final(self)@.chain.last().timestamp),
    {
        if self.pending_transactions.len() == 0 {
            return Err(NodeError::NoPendingTransactions);
        }
        Ok(self.seal())
    }

    /// Puts a transaction into the pending pool and seals the pool when it
    /// has reached the batch size.
    fn queue(&mut self, tx: Transaction) -> (effects: Vec<Effect>)
        requires
            old(self).wf(),
        ensures
            final(self).wf(),
            (Step { state: final(self)@, effects: effects.deep_view() }) == old(self)@.on_queued(
                tx@,
                final(self)@.chain.last().timestamp,
            ),
    {
        let ghost before = self.pending_transactions.deep_view();
        self.pending_transactions.push(tx);
        assert(self.pending_transactions.deep_view() =~= before.push(tx@));
        if self.pending_transactions.len() >= BLOCK_BATCH_SIZE {
            self.seal()
        } else {
            let effects: Vec<Effect> = Vec::new();
            assert(effects.deep_view() =~= Seq::<EffectView>::empty());
            effects
        }
    }

    /// Publishes a transaction of the host and puts it into the pending
    /// pool; the pool is sealed when it has reached the batch size.
    pub fn broadcast_transaction(&mut self, tx: Transaction) -> (effects: Vec<Effect>)
        requires
            old(self).wf(),
        ensures
            final(self).wf(),
            (Step { state: final(self)@, effects: effects.deep_view() }) == old(self)@.on_broadcast(
                tx@,
                final(self)@.chain.last().timestamp,
            ),
    {
        let mut effects: Vec<Effect> = Vec::new();
        assert(effects.deep_view() =~= Seq::<EffectView>::empty());
        let message = GossipMessage::Transaction(tx.clone());
        match encode_gossip(&message) {
            Ok(data) => {
                push_effect(&mut effects, Effect::Publish { topic: Topic::Tx, data });
            },
            Err(_) => {},
        }
        let ghost published = effects.deep_view();
        assert(published =~= seq![published[0]]);
        let more = self.queue(tx);
        append_effects(&mut effects, more);
        effects
    }

    /// Reacts to a message from a gossip topic. Bytes that decode to no
    /// message are dropped and change nothing.
    pub fn handle_gossip_message(&mut self, data: &[u8]) -> (effects: Vec<Effect>)
        requires
            old(self).wf(),
        ensures
            final(self).wf(),
            (Step { state: final(self)@, effects: effects.deep_view() }) == old(self)@.on_gossip(
                data@,
                final(self)@.chain.last().timestamp,
            ),
    {
        let mut effects: Vec<Effect> = Vec::new();
        assert(effects.deep_view() =~= Seq::<EffectView>::empty());
        match decode_gossip(data) {
            Ok(GossipMessage::Transaction(tx)) => {
                push_effect(&mut effects, Effect::Emit(NodeEvent::TransactionReceived(tx.clone())));
                let ghost report = effects.deep_view();
                assert(report =~= seq![report[0]]);
                let more = self.queue(tx);
                append_effects(&mut effects, more);
            },
            Ok(GossipMessage::Block(block)) => {
                let block_index = block.index;
                push_effect(&mut effects, Effect::Emit(NodeEvent::BlockReceived(block)));
                let ghost report = effects.deep_view();
                assert(report =~= seq![report[0]]);
                if self.mode == NodeMode::Full {
                    let (more, _) = self.send_verification(block_index);
                    append_effects(&mut effects, more);
                }
            },
            Ok(GossipMessage::BlockVerification { block_index, peer_id }) => {
                let (more, _) = self.record_verification(block_index, peer_id);
                append_effects(&mut effects, more);
                assert(effects.deep_view() =~= more.deep_view());
            },
            Err(_) => {},
        }
        effects
    }

    /// Answers a sync request: with the height of the tip, or with the
    /// blocks from the height asked for. Bytes that decode to no request get
    /// no answer.
    pub fn handle_sync_request(&self, data: &[u8]) -> (effects: Vec<Effect>)
        requires
            self.wf(),
        ensures
            effects.deep_view() == self@.on_sync_request(data@),
    {
        let mut effects: Vec<Effect> = Vec::new();
        assert(effects.deep_view() =~= Seq::<EffectView>::empty());
        match decode_request(data) {
            Ok(SyncRequest::ChainTip) => {
                let tip_index = self.blockchain.tip().index;
                match encode_response(&SyncResponse::ChainTip { tip_index }) {
                    Ok(bytes) => {
                        push_effect(&mut effects, Effect::Respond { data: bytes });
                    },
                    Err(_) => {},
                }
            },
            Ok(SyncRequest::BlocksFrom { from_index }) => {
                let blocks = self.blockchain.blocks_from(from_index);
                let bytes = encode_blocks_response(blocks);
                push_effect(&mut effects, Effect::Respond { data: bytes });
            },
            Err(_) => {},
        }
        assert(effects.deep_view() =~= self@.on_sync_request(data@));
        effects
    }

    /// Reacts to the answer `peer` gave to a sync request. Bytes that decode
    /// to no response are dropped and change nothing.
    pub fn apply_sync_response(&mut self, peer: &String, data: &[u8]) -> (effects: Vec<Effect>)
        requires
            old(self).wf(),
        ensures
            final(self).wf(),
            (Step { state: final(self)@, effects: effects.deep_view() })
                == old(self)@.on_sync_response(peer@, data@),
    {
        let mut effects: Vec<Effect> = Vec::new();
        assert(effects.deep_view() =~= Seq::<EffectView>::empty());
        match decode_response(data) {
            Ok(SyncResponse::ChainTip { tip_index }) => {
                let local_tip = self.blockchain.tip().index;
                if tip_index > local_tip {
                    let request = SyncRequest::BlocksFrom { from_index: local_tip + 1 };
                    match encode_request(&request) {
                        Ok(bytes) => {
                            push_effect(
                                &mut effects,
                                Effect::Request { peer: peer.clone(), data: bytes },
                            );
                        },
                        Err(_) => {},
                    }
                }
                assert(effects.deep_view() =~= old(self)@.on_sync_response(peer@, data@).effects);
            },
            Ok(SyncResponse::Blocks(received)) => {
                let ghost blocks = received.deep_view();
                let ghost above = |b: BlockView| b.index > 0;
                let ghost sync0 = self.sync_manager@;
                let mut fresh: Vec<Block> = Vec::new();
                let mut i: usize = 0;
                assert(fresh.deep_view() =~= Seq::<BlockView>::empty());
                assert(blocks.take(0) =~= Seq::<BlockView>::empty());
                while i < received.len()
                    invariant
                        i <= received@.len(),
                        blocks == received.deep_view(),
                        above == |b: BlockView| b.index > 0,
                        fresh.deep_view() == blocks.take(i as int).filter(above),
                        self.sync_manager@ == counted_all(sync0, fresh.deep_view()),
                        self.steady(),
                        self@ == (NodeView { sync: self.sync_manager@, ..old(self)@ }),
                    decreases received@.len() - i,
                {
                    let block = &received[i];
                    let ghost before = fresh.deep_view();
                    proof {
                        assert(blocks.take(i + 1).drop_last() =~= blocks.take(i as int));
                        assert(blocks.take(i + 1).last() == block@);
                        reveal(Seq::filter);
                    }
                    if block.index > 0 {
                        self.sync_manager.record_download(block);
                        let copy = block.clone();
                        fresh.push(copy);
                        proof {
                            assert(fresh.deep_view() =~= before.push(block@));
                            assert(fresh.deep_view().drop_last() =~= before);
                        }
                    }
                    i += 1;
                }
                assert(blocks.take(i as int) =~= blocks);
                assert(fresh.deep_view() == above_genesis(blocks));
                match self.blockchain.with_received(fresh.as_slice()) {
                    Some(remote_chain) => {
                        if self.blockchain.sync_from(&remote_chain) {
                            let new_length = self.blockchain.len();
                            push_effect(
                                &mut effects,
                                Effect::Emit(NodeEvent::ChainSynced { new_length }),
                            );
                            assert(effects.deep_view() =~= old(self)@.on_sync_response(
                                peer@,
                                data@,
                            ).effects);
                        }
                    },
                    None => {},
                }
            },
            Err(_) => {},
        }
        effects
    }

    /// The addresses of `addrs` that pass the port filter, in order; all of
    /// them when no filter is set.
    pub fn filter_addrs(&self, addrs: &Vec<PeerAddr>) -> (kept: Vec<PeerAddr>)
        ensures
            kept.deep_view() == filter_addrs(self@.port_filter, addrs.deep_view()),
    {
        let ghost all = addrs.deep_view();
        let ghost filter = filter_view(self.discovery_port_range);
        let ghost passes = |addr: PeerAddrView| addr_passes(filter, addr);
        if self.discovery_port_range.is_none() {
            return clone_addrs(addrs);
        }
        let mut kept: Vec<PeerAddr> = Vec::new();
        let mut i: usize = 0;
        assert(kept.deep_view() =~= Seq::<PeerAddrView>::empty());
        assert(all.take(0) =~= Seq::<PeerAddrView>::empty());
        while i < addrs.len()
            invariant
                i <= addrs@.len(),
                all == addrs.deep_view(),
                filter == filter_view(self.discovery_port_range),
                passes == |addr: PeerAddrView| addr_passes(filter, addr),
                kept.deep_view() == all.take(i as int).filter(passes),
            decreases addrs@.len() - i,
        {
            let addr = &addrs[i];
            let ghost before = kept.deep_view();
            proof {
                assert(all.take(i + 1).drop_last() =~= all.take(i as int));
                assert(all.take(i + 1).last() == addr@);
                reveal(Seq::filter);
            }
            let allowed = match addr.port {
                Some(port) => port_passes(&self.discovery_port_range, port),
                None => false,
            };
            if allowed {
                let copy = addr.clone();
                kept.push(copy);
                assert(kept.deep_view() =~= before.push(addr@));
            }
            i += 1;
        }
        assert(all.take(i as int) =~= all);
        kept
    }

    /// Reacts to the discovery of addresses of `peer`.
    fn discover(&mut self, peer: String, addrs: &Vec<PeerAddr>, route: bool) -> (effects: Vec<
        Effect,
    >)
        requires
            old(self).wf(),
        ensures
            final(self).wf(),
            (Step { state: final(self)@, effects: effects.deep_view() })
                == old(self)@.on_discovered(peer@, addrs.deep_view(), route),
    {
        let mut effects: Vec<Effect> = Vec::new();
        assert(effects.deep_view() =~= Seq::<EffectView>::empty());
        if self.connected_peers_map.contains_key(&peer) {
            return effects;
        }
        let kept = self.filter_addrs(addrs);
        if self.discovery_port_range.is_some() && kept.len() == 0 {
            return effects;
        }
        if route {
            let mut i: usize = 0;
            while i < kept.len()
                invariant
                    i <= kept@.len(),
                    effects.deep_view() == add_addresses(peer@, kept.deep_view()).take(i as int),
                decreases kept@.len() - i,
            {
                let ghost before = effects.deep_view();
                let addr = kept[i].clone();
                push_effect(&mut effects, Effect::AddAddress { peer: peer.clone(), addr });
                assert(effects.deep_view() =~= add_addresses(peer@, kept.deep_view()).take(
                    i + 1,
                ));
                i += 1;
            }
            assert(effects.deep_view() =~= add_addresses(peer@, kept.deep_view()));
        }
        self.discovered_peers.merge_addrs(peer.clone(), &kept);
        push_effect(
            &mut effects,
            Effect::Emit(NodeEvent::PeerDiscovered { peer_id: peer, addrs: kept }),
        );
        effects
    }

    /// Reacts to the addresses found by local discovery, peer by peer.
    fn discover_local(&mut self, found: &Vec<(String, PeerAddr)>) -> (effects: Vec<Effect>)
        requires
            old(self).wf(),
        ensures
            final(self).wf(),
            swarm_step(
                old(self)@,
                SwarmInputView::MdnsDiscovered(found.deep_view()),
                final(self)@,
                effects.deep_view(),
            ),
    {
        let mut effects: Vec<Effect> = Vec::new();
        assert(effects.deep_view() =~= Seq::<EffectView>::empty());
        if self.discovery_mode == DiscoveryMode::KademliaDht {
            return effects;
        }
        let ghost all = found.deep_view();
        let mut by_peer = PeerIndex::new();
        let mut i: usize = 0;
        assert(all.take(0) =~= Seq::<(Seq<char>, PeerAddrView)>::empty());
        while i < found.len()
            invariant
                i <= found@.len(),
                all == found.deep_view(),
                by_peer.wf(),
                by_peer@ == grouped(all.take(i as int)),
            decreases found@.len() - i,
        {
            proof {
                assert(all.take(i + 1).drop_last() =~= all.take(i as int));
                assert(all.take(i + 1).last() == all[i as int]);
            }
            by_peer.push_addr(found[i].0.clone(), found[i].1.clone());
            i += 1;
        }
        assert(all.take(i as int) =~= all);
        let groups = by_peer.snapshot();
        let ghost entries = groups.deep_view();
        let mut j: usize = 0;
        assert(entries.take(0) =~= Seq::<EntryView>::empty());
        while j < groups.len()
            invariant
                j <= groups@.len(),
                entries == groups.deep_view(),
                self.wf(),
                (Step { state: self@, effects: effects.deep_view() })
                    == old(self)@.on_discovered_all(entries.take(j as int)),
            decreases groups@.len() - j,
        {
            proof {
                assert(entries.take(j + 1).drop_last() =~= entries.take(j as int));
                assert(entries.take(j + 1).last() == entries[j as int]);
            }
            let more = self.discover(groups[j].0.clone(), &groups[j].1, true);
            append_effects(&mut effects, more);
            j += 1;
        }
        assert(entries.take(j as int) =~= entries);
        effects
    }

    /// Starts a discovery scan. With a port range only addresses on its
    /// ports are acted on from now on; without one the filter is lifted.
    /// Both discovery mechanisms are acted on from now on.
    pub fn trigger_discovery(&mut self, port_range: Option<(u16, u16)>) -> (effects: Vec<Effect>)
        requires
            old(self).wf(),
        ensures
            final(self).wf(),
            (Step { state: final(self)@, effects: effects.deep_view() })
                == old(self)@.on_trigger_discovery(port_range),
    {
        self.discovery_port_range = match port_range {
            Some((start, end)) => Some(RangeInclusive::new(start, end)),
            None => None,
        };
        self.discovery_mode = DiscoveryMode::Both;
        let mut effects: Vec<Effect> = Vec::new();
        assert(effects.deep_view() =~= Seq::<EffectView>::empty());
        push_effect(&mut effects, Effect::Bootstrap);
        assert(effects.deep_view() =~= seq![EffectView::Bootstrap]);
        effects
    }

    /// Reacts to what the network delivered; see [`swarm_step`].
    pub fn handle_swarm_event(&mut self, event: SwarmInput) -> (effects: Vec<Effect>)
        requires
            old(self).wf(),
        ensures
            final(self).wf(),
            swarm_step(old(self)@, event@, final(self)@, effects.deep_view()),
    {
        let mut effects: Vec<Effect> = Vec::new();
        assert(effects.deep_view() =~= Seq::<EffectView>::empty());
        match event {
            SwarmInput::NewListenAddr(addr) => {
                push_effect(&mut effects, Effect::Emit(NodeEvent::Listening(addr)));
                assert(effects.deep_view() =~= seq![
                    EffectView::Emit(NodeEventView::Listening(addr@)),
                ]);
                effects
            },
            SwarmInput::ConnectionEstablished { peer_id, addr } => {
                self.discovered_peers.remove(&peer_id);
                self.connected_peers_map.push_addr(peer_id.clone(), addr);
                push_effect(&mut effects, Effect::Emit(NodeEvent::PeerConnected(peer_id.clone())));
                match encode_request(&SyncRequest::ChainTip) {
                    Ok(data) => {
                        push_effect(&mut effects, Effect::Request { peer: peer_id, data });
                    },
                    Err(_) => {},
                }
                assert(effects.deep_view() =~= old(self)@.on_connected(peer_id@, addr@).effects);
                effects
            },
            SwarmInput::ConnectionClosed { peer_id } => {
                self.connected_peers_map.remove(&peer_id);
                push_effect(&mut effects, Effect::Emit(NodeEvent::PeerDisconnected(peer_id)));
                assert(effects.deep_view() =~= old(self)@.on_closed(peer_id@).effects);
                effects
            },
            SwarmInput::Gossip { data } => self.handle_gossip_message(data.as_slice()),
            SwarmInput::MdnsDiscovered(found) => self.discover_local(&found),
            SwarmInput::RoutingUpdated { peer, addresses } => {
                if self.discovery_mode == DiscoveryMode::Mdns {
                    effects
                } else {
                    self.discover(peer, &addresses, false)
                }
            },
            SwarmInput::IdentifyReceived { peer_id, listen_addrs } => {
                let mut i: usize = 0;
                while i < listen_addrs.len()
                    invariant
                        i <= listen_addrs@.len(),
                        effects.deep_view() == add_addresses(
                            peer_id@,
                            listen_addrs.deep_view(),
                        ).take(i as int),
                    decreases listen_addrs@.len() - i,
                {
                    let addr = listen_addrs[i].clone();
                    push_effect(&mut effects, Effect::AddAddress { peer: peer_id.clone(), addr });
                    assert(effects.deep_view() =~= add_addresses(
                        peer_id@,
                        listen_addrs.deep_view(),
                    ).take(i + 1));
                    i += 1;
                }
                assert(effects.deep_view() =~= add_addresses(peer_id@, listen_addrs.deep_view()));
                effects
            },
            SwarmInput::PingFailed { peer } => {
                push_effect(&mut effects, Effect::Disconnect(peer));
                assert(effects.deep_view() =~= seq![EffectView::Disconnect(peer@)]);
                effects
            },
            SwarmInput::SyncRequest { data } => self.handle_sync_request(data.as_slice()),
            SwarmInput::SyncResponse { peer, data } => self.apply_sync_response(
                &peer,
                data.as_slice(),
            ),
            SwarmInput::Other => effects,
        }
    }
}

} // verus!
