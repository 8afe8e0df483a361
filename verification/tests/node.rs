use spn_core::blockchain::{Block, Blockchain, BlockchainError};
use spn_core::node::config::port_range_from_bounds;
use spn_core::node::protocol::{
    decode_gossip, decode_request, decode_response, encode_gossip, encode_request,
    encode_response,
};
use spn_core::node::{
    DiscoveryMode, Effect, GossipMessage, Node, NodeConfig, NodeError, NodeEvent, PeerAddr,
    SwarmInput, SyncRequest, SyncResponse, Topic,
};
use spn_core::sync::SyncStrategy;
use spn_core::transaction::{Transaction, TransactionType};

fn full_node() -> Node {
    Node::new(NodeConfig::default(), "local-peer".to_string())
}

fn gossip_node() -> Node {
    Node::new(NodeConfig::gossip(), "relay-peer".to_string())
}

fn tx(n: u8) -> Transaction {
    Transaction::from_parts([n; 16], TransactionType::PostCreated, vec![n], n as i64)
}

fn addr(text: &str, port: Option<u16>) -> PeerAddr {
    PeerAddr { text: text.to_string(), port }
}

fn tcp(port: u16) -> PeerAddr {
    addr(&format!("/ip4/10.0.0.1/tcp/{}", port), Some(port))
}

fn remote_chain(blocks: u8) -> Blockchain {
    let mut chain = Blockchain::new();
    for i in 0..blocks {
        chain.add_block(vec![tx(i)]).unwrap();
    }
    chain
}

#[test]
fn config_defaults_and_builders() {
    let d = NodeConfig::default();
    assert_eq!(d.port, 51025);
    assert!(d.discovery_port_range.is_none());
    assert_eq!(d.discovery_mode, DiscoveryMode::Both);
    assert_eq!(d.mode, spn_core::node::NodeMode::Full);
    assert_eq!(d.sync_strategy, SyncStrategy::OnDemand);
    assert!(!d.quiet);
    assert_eq!(DiscoveryMode::default(), DiscoveryMode::Both);

    let g = NodeConfig::gossip();
    assert_eq!(g.port, 51025);
    assert_eq!(g.mode, spn_core::node::NodeMode::Gossip);
    let g = NodeConfig::gossip_on_port(4000);
    assert_eq!(g.port, 4000);
    assert_eq!(g.mode, spn_core::node::NodeMode::Gossip);
    let f = NodeConfig::on_port(4001);
    assert_eq!(f.port, 4001);
    assert_eq!(f.mode, spn_core::node::NodeMode::Full);
    assert_eq!(f.discovery_mode, DiscoveryMode::Both);
}

#[test]
fn port_allowed_follows_the_configured_range() {
    let mut config = NodeConfig::default();
    assert!(config.port_allowed(0));
    assert!(config.port_allowed(65535));
    config.discovery_port_range = Some(40000..=60000);
    assert!(!config.port_allowed(39999));
    assert!(config.port_allowed(40000));
    assert!(config.port_allowed(51025));
    assert!(config.port_allowed(60000));
    assert!(!config.port_allowed(60001));
    config.discovery_port_range = Some(10..=5);
    assert!(!config.port_allowed(7));
}

#[test]
fn a_new_node_holds_the_genesis_chain_and_nothing_else() {
    let node = full_node();
    assert_eq!(node.peer_id(), "local-peer");
    assert_eq!(node.blockchain().len(), 1);
    assert!(node.blockchain().is_valid());
    assert!(node.pending_transactions().is_empty());
    assert!(node.connected_peers().is_empty());
    assert!(node.discovered_peers().is_empty());
    assert_eq!(node.sync_manager().downloaded_bytes(), 0);
}

#[test]
fn broadcast_publishes_and_queues() {
    let mut node = full_node();
    let effects = node.broadcast_transaction(tx(1));
    assert_eq!(effects.len(), 1);
    match &effects[0] {
        Effect::Publish { topic, data } => {
            assert_eq!(*topic, Topic::Tx);
            assert_eq!(*data, encode_gossip(&GossipMessage::Transaction(tx(1))).unwrap());
        }
        other => panic!("unexpected effect {:?}", other),
    }
    assert_eq!(node.pending_transactions().len(), 1);
    assert_eq!(node.blockchain().len(), 1);
}

#[test]
fn the_tenth_transaction_seals_a_block() {
    let mut node = full_node();
    for i in 0..9u8 {
        let effects = node.broadcast_transaction(tx(i));
        assert_eq!(effects.len(), 1);
    }
    assert_eq!(node.pending_transactions().len(), 9);
    let effects = node.broadcast_transaction(tx(9));
    assert_eq!(node.pending_transactions().len(), 0);
    assert_eq!(node.blockchain().len(), 2);
    assert!(node.blockchain().is_valid());
    let block = node.blockchain().get_block(1).unwrap();
    assert_eq!(block.transactions.len(), 10);
    for (i, t) in block.transactions.iter().enumerate() {
        assert_eq!(*t, tx(i as u8));
    }
    // A full node has verified its own block.
    assert_eq!(block.verifications, vec!["local-peer"]);

    assert_eq!(effects.len(), 3);
    assert!(matches!(&effects[0], Effect::Publish { topic: Topic::Tx, .. }));
    match &effects[1] {
        Effect::Publish { topic: Topic::Block, data } => match decode_gossip(data).unwrap() {
            GossipMessage::Block(announced) => {
                assert_eq!(announced.hash(), block.hash());
                assert_eq!(announced.transactions.len(), 10);
                assert!(announced.verifications.is_empty());
            }
            other => panic!("unexpected message {:?}", other),
        },
        other => panic!("unexpected effect {:?}", other),
    }
    match &effects[2] {
        Effect::Publish { topic: Topic::Verify, data } => match decode_gossip(data).unwrap() {
            GossipMessage::BlockVerification { block_index, peer_id } => {
                assert_eq!(block_index, 1);
                assert_eq!(peer_id, "local-peer");
            }
            other => panic!("unexpected message {:?}", other),
        },
        other => panic!("unexpected effect {:?}", other),
    }
}

#[test]
fn a_gossip_node_seals_but_does_not_verify() {
    let mut node = gossip_node();
    let mut last = Vec::new();
    for i in 0..10u8 {
        last = node.broadcast_transaction(tx(i));
    }
    assert_eq!(node.blockchain().len(), 2);
    assert_eq!(last.len(), 2);
    assert!(matches!(&last[0], Effect::Publish { topic: Topic::Tx, .. }));
    assert!(matches!(&last[1], Effect::Publish { topic: Topic::Block, .. }));
    assert!(node.blockchain().get_block(1).unwrap().verifications.is_empty());
}

#[test]
fn form_block_needs_pending_transactions() {
    let mut node = full_node();
    assert!(matches!(node.form_block(), Err(NodeError::NoPendingTransactions)));
    assert_eq!(node.blockchain().len(), 1);
    node.broadcast_transaction(tx(1));
    node.broadcast_transaction(tx(2));
    let effects = node.form_block().unwrap();
    assert_eq!(effects.len(), 2);
    assert!(matches!(&effects[0], Effect::Publish { topic: Topic::Block, .. }));
    assert!(matches!(&effects[1], Effect::Publish { topic: Topic::Verify, .. }));
    assert_eq!(node.blockchain().len(), 2);
    assert_eq!(node.blockchain().tip().transactions.len(), 2);
    assert!(node.pending_transactions().is_empty());
    assert!(matches!(node.form_block(), Err(NodeError::NoPendingTransactions)));
}

#[test]
fn send_verification_publishes_even_for_an_unknown_block() {
    let mut node = full_node();
    let (effects, result) = node.send_verification(5);
    assert!(matches!(
        result,
        Err(NodeError::Blockchain(BlockchainError::BlockNotFound(5)))
    ));
    assert_eq!(effects.len(), 1);
    assert!(matches!(&effects[0], Effect::Publish { topic: Topic::Verify, .. }));

    let (effects, result) = node.send_verification(0);
    assert!(result.is_ok());
    assert_eq!(effects.len(), 1);
    assert_eq!(node.blockchain().get_block(0).unwrap().verifications, vec!["local-peer"]);
}

#[test]
fn gossiped_transactions_are_reported_and_queued() {
    let mut node = full_node();
    let bytes = encode_gossip(&GossipMessage::Transaction(tx(3))).unwrap();
    let effects = node.handle_gossip_message(&bytes);
    assert_eq!(effects.len(), 1);
    assert!(matches!(&effects[0], Effect::Emit(NodeEvent::TransactionReceived(t)) if *t == tx(3)));
    assert_eq!(node.pending_transactions().len(), 1);
    for i in 0..9u8 {
        node.handle_gossip_message(&encode_gossip(&GossipMessage::Transaction(tx(i))).unwrap());
    }
    assert_eq!(node.blockchain().len(), 2);
    assert!(node.pending_transactions().is_empty());
}

#[test]
fn a_gossiped_block_is_reported_and_verified_by_a_full_node() {
    let remote = remote_chain(1);
    let block: Block = remote.tip().clone();
    let bytes = encode_gossip(&GossipMessage::Block(block.clone())).unwrap();

    let mut node = full_node();
    let effects = node.handle_gossip_message(&bytes);
    assert_eq!(effects.len(), 2);
    assert!(matches!(&effects[0], Effect::Emit(NodeEvent::BlockReceived(b)) if b.hash() == block.hash()));
    assert!(matches!(&effects[1], Effect::Publish { topic: Topic::Verify, .. }));
    // The block is announced, not adopted.
    assert_eq!(node.blockchain().len(), 1);

    let mut relay = gossip_node();
    let effects = relay.handle_gossip_message(&bytes);
    assert_eq!(effects.len(), 1);
    assert!(matches!(&effects[0], Effect::Emit(NodeEvent::BlockReceived(_))));
}

#[test]
fn verifications_finalise_at_three_and_stay_reported() {
    let mut node = gossip_node();
    node.broadcast_transaction(tx(1));
    node.form_block().unwrap();
    let verify = |node: &mut Node, peer: &str| {
        let msg = GossipMessage::BlockVerification { block_index: 1, peer_id: peer.to_string() };
        node.handle_gossip_message(&encode_gossip(&msg).unwrap())
    };
    assert!(verify(&mut node, "peer-1").is_empty());
    assert!(verify(&mut node, "peer-1").is_empty());
    assert!(verify(&mut node, "peer-2").is_empty());
    let third = verify(&mut node, "peer-3");
    assert_eq!(third.len(), 1);
    assert!(matches!(&third[0], Effect::Emit(NodeEvent::BlockFinalised { block_index: 1 })));
    // A retransmission reports the block as finalised again.
    let again = verify(&mut node, "peer-1");
    assert!(matches!(&again[0], Effect::Emit(NodeEvent::BlockFinalised { block_index: 1 })));
    assert_eq!(node.blockchain().get_block(1).unwrap().verifications.len(), 3);
    assert!(node.blockchain().is_valid());
}

#[test]
fn a_verification_for_an_unseen_block_is_dropped() {
    let mut node = full_node();
    let msg = GossipMessage::BlockVerification { block_index: 9, peer_id: "p".to_string() };
    let effects = node.handle_gossip_message(&encode_gossip(&msg).unwrap());
    assert!(effects.is_empty());
    assert_eq!(node.blockchain().len(), 1);
}

#[test]
fn undecodable_bytes_change_nothing() {
    let mut node = full_node();
    node.broadcast_transaction(tx(1));
    for bytes in [&[][..], &[9, 9, 9][..], &[5, 0, 0, 0, 1][..]] {
        assert!(node.handle_gossip_message(bytes).is_empty());
        assert!(node.handle_sync_request(bytes).is_empty());
        assert!(node.apply_sync_response(&"peer".to_string(), bytes).is_empty());
    }
    assert_eq!(node.pending_transactions().len(), 1);
    assert_eq!(node.blockchain().len(), 1);
}

#[test]
fn sync_requests_are_answered() {
    let mut node = gossip_node();
    for i in 0..3u8 {
        node.broadcast_transaction(tx(i));
        node.form_block().unwrap();
    }
    let effects = node.handle_sync_request(&encode_request(&SyncRequest::ChainTip).unwrap());
    assert_eq!(effects.len(), 1);
    match &effects[0] {
        Effect::Respond { data } => {
            assert!(matches!(decode_response(data), Ok(SyncResponse::ChainTip { tip_index: 3 })));
        }
        other => panic!("unexpected effect {:?}", other),
    }
    let request = encode_request(&SyncRequest::BlocksFrom { from_index: 2 }).unwrap();
    match &node.handle_sync_request(&request)[0] {
        Effect::Respond { data } => match decode_response(data).unwrap() {
            SyncResponse::Blocks(blocks) => {
                assert_eq!(blocks.len(), 2);
                assert_eq!(blocks[0].index, 2);
                assert_eq!(blocks[1].hash(), node.blockchain().tip().hash());
            }
            other => panic!("unexpected response {:?}", other),
        },
        other => panic!("unexpected effect {:?}", other),
    }
    let request = encode_request(&SyncRequest::BlocksFrom { from_index: 4 }).unwrap();
    match &node.handle_sync_request(&request)[0] {
        Effect::Respond { data } => {
            assert!(matches!(decode_response(data), Ok(SyncResponse::Blocks(b)) if b.is_empty()));
        }
        other => panic!("unexpected effect {:?}", other),
    }
}

#[test]
fn a_higher_tip_makes_the_node_ask_for_blocks() {
    let mut node = full_node();
    let peer = "remote-peer".to_string();
    let higher = encode_response(&SyncResponse::ChainTip { tip_index: 4 }).unwrap();
    let effects = node.apply_sync_response(&peer, &higher);
    assert_eq!(effects.len(), 1);
    match &effects[0] {
        Effect::Request { peer: to, data } => {
            assert_eq!(to, "remote-peer");
            assert_eq!(decode_request(data), Ok(SyncRequest::BlocksFrom { from_index: 1 }));
        }
        other => panic!("unexpected effect {:?}", other),
    }
    let equal = encode_response(&SyncResponse::ChainTip { tip_index: 0 }).unwrap();
    assert!(node.apply_sync_response(&peer, &equal).is_empty());
}

#[test]
fn received_blocks_are_adopted_when_they_make_a_longer_valid_chain() {
    let remote = remote_chain(5);
    let mut node = full_node();
    let peer = "remote-peer".to_string();
    let bytes = encode_response(&SyncResponse::Blocks(remote.blocks_from(1).to_vec())).unwrap();
    let effects = node.apply_sync_response(&peer, &bytes);
    assert_eq!(effects.len(), 1);
    assert!(matches!(&effects[0], Effect::Emit(NodeEvent::ChainSynced { new_length: 6 })));
    assert_eq!(node.blockchain().len(), 6);
    assert!(node.blockchain().is_valid());
    assert_eq!(node.blockchain().tip().hash(), remote.tip().hash());
    // Five blocks of one payload byte each were counted.
    assert_eq!(node.sync_manager().downloaded_bytes(), 5 * 257);

    // The same blocks again are counted but adopt nothing.
    let effects = node.apply_sync_response(&peer, &bytes);
    assert!(effects.is_empty());
    assert_eq!(node.blockchain().len(), 6);
    assert_eq!(node.sync_manager().downloaded_bytes(), 10 * 257);
}

#[test]
fn received_blocks_that_do_not_link_are_not_adopted() {
    let remote = remote_chain(3);
    let mut blocks: Vec<Block> = remote.blocks_from(1).to_vec();
    blocks[2].prev_hash = [0xAB; 32];
    let mut node = full_node();
    let bytes = encode_response(&SyncResponse::Blocks(blocks)).unwrap();
    assert!(node.apply_sync_response(&"p".to_string(), &bytes).is_empty());
    assert_eq!(node.blockchain().len(), 1);

    // A response that starts with the sender's genesis block: that block
    // is skipped, the others are taken.
    let bytes = encode_response(&SyncResponse::Blocks(remote.blocks().to_vec())).unwrap();
    let effects = node.apply_sync_response(&"p".to_string(), &bytes);
    assert!(matches!(&effects[0], Effect::Emit(NodeEvent::ChainSynced { new_length: 4 })));
    assert_eq!(node.sync_manager().downloaded_bytes(), 6 * 257);
}

#[test]
fn connections_move_peers_between_the_indices() {
    let mut node = full_node();
    node.handle_swarm_event(SwarmInput::RoutingUpdated {
        peer: "peer-1".to_string(),
        addresses: vec![tcp(4001)],
    });
    assert_eq!(node.discovered_peers().len(), 1);

    let effects = node.handle_swarm_event(SwarmInput::ConnectionEstablished {
        peer_id: "peer-1".to_string(),
        addr: tcp(4001),
    });
    assert_eq!(effects.len(), 2);
    assert!(matches!(&effects[0], Effect::Emit(NodeEvent::PeerConnected(p)) if p == "peer-1"));
    match &effects[1] {
        Effect::Request { peer, data } => {
            assert_eq!(peer, "peer-1");
            assert_eq!(decode_request(data), Ok(SyncRequest::ChainTip));
        }
        other => panic!("unexpected effect {:?}", other),
    }
    assert!(node.discovered_peers().is_empty());
    assert_eq!(node.connected_peers(), vec![("peer-1".to_string(), vec![tcp(4001)])]);

    // A second connection of the same peer adds its address.
    node.handle_swarm_event(SwarmInput::ConnectionEstablished {
        peer_id: "peer-1".to_string(),
        addr: tcp(4002),
    });
    assert_eq!(node.connected_peers(), vec![("peer-1".to_string(), vec![tcp(4001), tcp(4002)])]);

    // A connected peer is not listed as discovered again.
    let effects = node.handle_swarm_event(SwarmInput::RoutingUpdated {
        peer: "peer-1".to_string(),
        addresses: vec![tcp(4003)],
    });
    assert!(effects.is_empty());
    assert!(node.discovered_peers().is_empty());

    let effects = node.handle_swarm_event(SwarmInput::ConnectionClosed { peer_id: "peer-1".to_string() });
    assert_eq!(effects.len(), 1);
    assert!(matches!(&effects[0], Effect::Emit(NodeEvent::PeerDisconnected(p)) if p == "peer-1"));
    assert!(node.connected_peers().is_empty());
}

#[test]
fn discovery_respects_the_port_filter() {
    let mut config = NodeConfig::default();
    config.discovery_port_range = Some(4000..=4999);
    let mut node = Node::new(config, "local".to_string());

    // No address passes: the discovery is dropped.
    let effects = node.handle_swarm_event(SwarmInput::RoutingUpdated {
        peer: "peer-1".to_string(),
        addresses: vec![tcp(5000), addr("/dns/example", None)],
    });
    assert!(effects.is_empty());
    assert!(node.discovered_peers().is_empty());

    // Some pass: those are kept.
    let effects = node.handle_swarm_event(SwarmInput::RoutingUpdated {
        peer: "peer-1".to_string(),
        addresses: vec![tcp(3999), tcp(4000), tcp(4999), tcp(5000)],
    });
    assert_eq!(effects.len(), 1);
    match &effects[0] {
        Effect::Emit(NodeEvent::PeerDiscovered { peer_id, addrs }) => {
            assert_eq!(peer_id, "peer-1");
            assert_eq!(*addrs, vec![tcp(4000), tcp(4999)]);
        }
        other => panic!("unexpected effect {:?}", other),
    }
    assert_eq!(node.filter_addrs(&vec![tcp(1), tcp(4500)]), vec![tcp(4500)]);

    // Known addresses are not listed twice.
    node.handle_swarm_event(SwarmInput::RoutingUpdated {
        peer: "peer-1".to_string(),
        addresses: vec![tcp(4999), tcp(4001)],
    });
    assert_eq!(
        node.discovered_peers(),
        vec![("peer-1".to_string(), vec![tcp(4000), tcp(4999), tcp(4001)])]
    );
}

#[test]
fn without_a_filter_every_address_is_kept() {
    let mut node = full_node();
    let all = vec![tcp(1), addr("/dns/example", None)];
    assert_eq!(node.filter_addrs(&all), all);
    let effects = node.handle_swarm_event(SwarmInput::RoutingUpdated {
        peer: "peer-1".to_string(),
        addresses: vec![],
    });
    assert_eq!(effects.len(), 1);
    assert!(matches!(&effects[0], Effect::Emit(NodeEvent::PeerDiscovered { addrs, .. }) if addrs.is_empty()));
    assert_eq!(node.discovered_peers(), vec![("peer-1".to_string(), vec![])]);
}

#[test]
fn local_discovery_groups_addresses_by_peer() {
    let mut node = full_node();
    let effects = node.handle_swarm_event(SwarmInput::MdnsDiscovered(vec![
        ("peer-1".to_string(), tcp(1)),
        ("peer-2".to_string(), tcp(2)),
        ("peer-1".to_string(), tcp(3)),
    ]));
    assert_eq!(effects.len(), 5);
    assert!(matches!(&effects[0], Effect::AddAddress { peer, addr } if peer == "peer-1" && *addr == tcp(1)));
    assert!(matches!(&effects[1], Effect::AddAddress { peer, addr } if peer == "peer-1" && *addr == tcp(3)));
    assert!(matches!(&effects[2], Effect::Emit(NodeEvent::PeerDiscovered { peer_id, addrs })
        if peer_id == "peer-1" && *addrs == vec![tcp(1), tcp(3)]));
    assert!(matches!(&effects[3], Effect::AddAddress { peer, addr } if peer == "peer-2" && *addr == tcp(2)));
    assert!(matches!(&effects[4], Effect::Emit(NodeEvent::PeerDiscovered { peer_id, .. }) if peer_id == "peer-2"));
    assert_eq!(
        node.discovered_peers(),
        vec![
            ("peer-1".to_string(), vec![tcp(1), tcp(3)]),
            ("peer-2".to_string(), vec![tcp(2)]),
        ]
    );
}

#[test]
fn discovery_mode_selects_the_mechanisms_acted_on() {
    let mut config = NodeConfig::default();
    config.discovery_mode = DiscoveryMode::KademliaDht;
    let mut dht_only = Node::new(config, "n".to_string());
    assert!(dht_only
        .handle_swarm_event(SwarmInput::MdnsDiscovered(vec![("p".to_string(), tcp(1))]))
        .is_empty());
    assert_eq!(
        dht_only
            .handle_swarm_event(SwarmInput::RoutingUpdated { peer: "p".to_string(), addresses: vec![tcp(1)] })
            .len(),
        1
    );

    let mut config = NodeConfig::default();
    config.discovery_mode = DiscoveryMode::Mdns;
    let mut local_only = Node::new(config, "n".to_string());
    assert!(local_only
        .handle_swarm_event(SwarmInput::RoutingUpdated { peer: "p".to_string(), addresses: vec![tcp(1)] })
        .is_empty());
    assert_eq!(
        local_only
            .handle_swarm_event(SwarmInput::MdnsDiscovered(vec![("p".to_string(), tcp(1))]))
            .len(),
        2
    );

    // A discovery scan switches both mechanisms on and sets the filter.
    let effects = local_only.trigger_discovery(Some((2000, 3000)));
    assert_eq!(effects.len(), 1);
    assert!(matches!(&effects[0], Effect::Bootstrap));
    assert!(local_only
        .handle_swarm_event(SwarmInput::RoutingUpdated { peer: "q".to_string(), addresses: vec![tcp(1)] })
        .is_empty());
    assert_eq!(
        local_only
            .handle_swarm_event(SwarmInput::RoutingUpdated { peer: "q".to_string(), addresses: vec![tcp(2500)] })
            .len(),
        1
    );
    local_only.trigger_discovery(None);
    assert_eq!(
        local_only
            .handle_swarm_event(SwarmInput::RoutingUpdated { peer: "r".to_string(), addresses: vec![tcp(1)] })
            .len(),
        1
    );
}

#[test]
fn the_remaining_inputs_map_to_single_effects() {
    let mut node = full_node();
    let effects = node.handle_swarm_event(SwarmInput::NewListenAddr(tcp(51025)));
    assert!(matches!(&effects[..], [Effect::Emit(NodeEvent::Listening(a))] if *a == tcp(51025)));

    let effects = node.handle_swarm_event(SwarmInput::PingFailed { peer: "p".to_string() });
    assert!(matches!(&effects[..], [Effect::Disconnect(p)] if p == "p"));

    let effects = node.handle_swarm_event(SwarmInput::IdentifyReceived {
        peer_id: "p".to_string(),
        listen_addrs: vec![tcp(1), tcp(2)],
    });
    assert_eq!(effects.len(), 2);
    assert!(matches!(&effects[1], Effect::AddAddress { peer, addr } if peer == "p" && *addr == tcp(2)));

    assert!(node.handle_swarm_event(SwarmInput::Other).is_empty());

    let gossip = encode_gossip(&GossipMessage::Transaction(tx(1))).unwrap();
    let effects = node.handle_swarm_event(SwarmInput::Gossip { data: gossip });
    assert!(matches!(&effects[..], [Effect::Emit(NodeEvent::TransactionReceived(_))]));

    let request = encode_request(&SyncRequest::ChainTip).unwrap();
    let effects = node.handle_swarm_event(SwarmInput::SyncRequest { data: request });
    assert!(matches!(&effects[..], [Effect::Respond { .. }]));

    let response = encode_response(&SyncResponse::ChainTip { tip_index: 1 }).unwrap();
    let effects = node.handle_swarm_event(SwarmInput::SyncResponse { peer: "p".to_string(), data: response });
    assert!(matches!(&effects[..], [Effect::Request { peer, .. }] if peer == "p"));
}

#[test]
fn the_local_chain_stays_valid_under_any_traffic() {
    let remote = remote_chain(4);
    let mut node = full_node();
    let inputs: Vec<SwarmInput> = vec![
        SwarmInput::Gossip { data: encode_gossip(&GossipMessage::Block(remote.tip().clone())).unwrap() },
        SwarmInput::SyncResponse {
            peer: "p".to_string(),
            data: encode_response(&SyncResponse::Blocks(remote.blocks_from(1).to_vec())).unwrap(),
        },
        SwarmInput::Gossip {
            data: encode_gossip(&GossipMessage::BlockVerification { block_index: 2, peer_id: "a".to_string() }).unwrap(),
        },
        SwarmInput::SyncResponse {
            peer: "p".to_string(),
            data: encode_response(&SyncResponse::Blocks(remote.blocks_from(3).to_vec())).unwrap(),
        },
        SwarmInput::Gossip { data: vec![1, 2, 3] },
    ];
    for input in inputs {
        node.handle_swarm_event(input);
        assert!(node.blockchain().is_valid());
        assert!(node.pending_transactions().len() < 10);
    }
    for i in 0..25u8 {
        node.broadcast_transaction(tx(i));
        assert!(node.blockchain().is_valid());
        assert!(node.pending_transactions().len() < 10);
    }
    assert_eq!(node.blockchain().len(), 7);
}

#[test]
fn port_bounds_make_the_discovery_range() {
    assert_eq!(port_range_from_bounds(None, None), None);
    assert_eq!(port_range_from_bounds(Some(5), Some(9)), Some(5..=9));
    assert_eq!(port_range_from_bounds(Some(5), None), Some(5..=u16::MAX));
    assert_eq!(port_range_from_bounds(None, Some(9)), Some(0..=9));
}
