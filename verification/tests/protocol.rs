use spn_core::blockchain::{Block, Blockchain};
use spn_core::node::protocol::{
    decode_gossip, decode_request, decode_response, encode_blocks_response, encode_gossip,
    encode_request, encode_response, IDENTIFY_PROTOCOL, SYNC_PROTOCOL, TOPIC_BLOCK, TOPIC_TX,
    TOPIC_VERIFY,
};
use spn_core::node::{GossipMessage, ProtocolError, SyncRequest, SyncResponse, Topic};
use spn_core::transaction::{Transaction, TransactionType};

fn sample_tx(n: u8) -> Transaction {
    let mut tx = Transaction::from_parts([n; 16], TransactionType::CommentAdded, vec![n; 3], 1000 + n as i64);
    tx.sign(vec![n, n]);
    tx
}

fn sample_block() -> Block {
    let mut block = Block::sealed_at(3, [7u8; 32], vec![sample_tx(1), sample_tx(2)], 42).unwrap();
    block.add_verification("peer-α".to_string());
    block.add_verification("peer-b".to_string());
    block
}

fn same_block(a: &Block, b: &Block) -> bool {
    a.index == b.index
        && a.prev_hash == b.prev_hash
        && a.merkle_root == b.merkle_root
        && a.transactions == b.transactions
        && a.timestamp == b.timestamp
        && a.nonce == b.nonce
        && a.verifications == b.verifications
}

#[test]
fn topic_and_protocol_names_are_the_documented_literals() {
    assert_eq!(TOPIC_TX, "sp/tx");
    assert_eq!(TOPIC_BLOCK, "sp/block");
    assert_eq!(TOPIC_VERIFY, "sp/verify");
    assert_eq!(SYNC_PROTOCOL, "/sp/sync/1.0.0");
    assert_eq!(IDENTIFY_PROTOCOL, "/sp/1.0.0");
    assert_eq!(Topic::Tx.name(), "sp/tx");
    assert_eq!(Topic::Block.name(), "sp/block");
    assert_eq!(Topic::Verify.name(), "sp/verify");
}

#[test]
fn gossip_transaction_round_trip() {
    let tx = sample_tx(9);
    let bytes = encode_gossip(&GossipMessage::Transaction(tx.clone())).unwrap();
    assert_eq!(&bytes[..4], &[0, 0, 0, 0]);
    match decode_gossip(&bytes).unwrap() {
        GossipMessage::Transaction(got) => assert_eq!(got, tx),
        other => panic!("unexpected message {:?}", other),
    }
}

#[test]
fn gossip_verification_round_trip_and_layout() {
    let msg = GossipMessage::BlockVerification { block_index: 258, peer_id: "pé".to_string() };
    let bytes = encode_gossip(&msg).unwrap();
    let mut expected: Vec<u8> = vec![1, 0, 0, 0];
    expected.extend_from_slice(&[2, 1, 0, 0, 0, 0, 0, 0]);
    expected.extend_from_slice(&[3, 0, 0, 0, 0, 0, 0, 0]);
    expected.extend_from_slice("pé".as_bytes());
    assert_eq!(bytes, expected);
    match decode_gossip(&bytes).unwrap() {
        GossipMessage::BlockVerification { block_index, peer_id } => {
            assert_eq!(block_index, 258);
            assert_eq!(peer_id, "pé");
        }
        other => panic!("unexpected message {:?}", other),
    }
}

#[test]
fn gossip_block_round_trip() {
    let block = sample_block();
    let bytes = encode_gossip(&GossipMessage::Block(block.clone())).unwrap();
    assert_eq!(&bytes[..4], &[2, 0, 0, 0]);
    match decode_gossip(&bytes).unwrap() {
        GossipMessage::Block(got) => assert!(same_block(&got, &block)),
        other => panic!("unexpected message {:?}", other),
    }
}

#[test]
fn block_bytes_agree_with_the_reference_serializer() {
    let block = sample_block();
    let bytes = encode_gossip(&GossipMessage::Block(block.clone())).unwrap();
    let txs: Vec<(uuid::Uuid, u32, Vec<u8>, i64, Vec<u8>)> = block
        .transactions
        .iter()
        .map(|t| {
            (
                uuid::Uuid::from_bytes(t.id),
                t.kind.tag(),
                t.payload.clone(),
                t.timestamp,
                t.signature.clone(),
            )
        })
        .collect();
    let reference = bincode::serialize(&(
        2u32,
        (
            block.index,
            block.prev_hash,
            block.merkle_root,
            txs,
            block.timestamp,
            block.nonce,
            block.verifications.clone(),
        ),
    ))
    .unwrap();
    assert_eq!(bytes, reference);
}

#[test]
fn decoding_ignores_what_follows_the_message() {
    let mut bytes = encode_gossip(&GossipMessage::Transaction(sample_tx(1))).unwrap();
    bytes.extend_from_slice(&[1, 2, 3]);
    assert!(matches!(decode_gossip(&bytes), Ok(GossipMessage::Transaction(_))));
    let mut bytes = encode_request(&SyncRequest::ChainTip).unwrap();
    bytes.push(9);
    assert_eq!(decode_request(&bytes), Ok(SyncRequest::ChainTip));
}

#[test]
fn malformed_gossip_is_rejected() {
    assert!(matches!(decode_gossip(&[]), Err(ProtocolError::Malformed)));
    assert!(matches!(decode_gossip(&[0, 0, 0]), Err(ProtocolError::Malformed)));
    assert!(matches!(decode_gossip(&[3, 0, 0, 0]), Err(ProtocolError::Malformed)));
    assert!(matches!(decode_gossip(&[0, 1, 0, 0]), Err(ProtocolError::Malformed)));
    for msg in [
        GossipMessage::Transaction(sample_tx(4)),
        GossipMessage::BlockVerification { block_index: 1, peer_id: "peer".to_string() },
        GossipMessage::Block(sample_block()),
    ] {
        let bytes = encode_gossip(&msg).unwrap();
        for cut in 0..bytes.len() {
            assert!(decode_gossip(&bytes[..cut]).is_err(), "prefix of {} bytes", cut);
        }
        assert!(decode_gossip(&bytes).is_ok());
    }
}

#[test]
fn peer_identifier_must_be_utf8() {
    let mut bytes: Vec<u8> = vec![1, 0, 0, 0];
    bytes.extend_from_slice(&7u64.to_le_bytes());
    bytes.extend_from_slice(&2u64.to_le_bytes());
    bytes.extend_from_slice(&[0xC3, 0x28]);
    assert!(matches!(decode_gossip(&bytes), Err(ProtocolError::Malformed)));
    let n = bytes.len();
    bytes[n - 2] = 0xC3;
    bytes[n - 1] = 0xA9;
    match decode_gossip(&bytes).unwrap() {
        GossipMessage::BlockVerification { block_index, peer_id } => {
            assert_eq!(block_index, 7);
            assert_eq!(peer_id, "é");
        }
        other => panic!("unexpected message {:?}", other),
    }
}

#[test]
fn a_list_length_beyond_the_input_is_rejected() {
    let block = sample_block();
    let bytes = encode_gossip(&GossipMessage::Block(block)).unwrap();
    // The transaction count sits after tag, height and the two hashes.
    let at = 4 + 8 + 32 + 32;
    assert_eq!(&bytes[at..at + 8], &2u64.to_le_bytes());
    let mut more = bytes.clone();
    more[at..at + 8].copy_from_slice(&3u64.to_le_bytes());
    assert!(decode_gossip(&more).is_err());
    let mut huge = bytes.clone();
    huge[at..at + 8].copy_from_slice(&u64::MAX.to_le_bytes());
    assert!(decode_gossip(&huge).is_err());
}

#[test]
fn sync_request_round_trip_and_layout() {
    let tip = encode_request(&SyncRequest::ChainTip).unwrap();
    assert_eq!(tip, vec![1, 0, 0, 0]);
    assert_eq!(decode_request(&tip), Ok(SyncRequest::ChainTip));
    let from = encode_request(&SyncRequest::BlocksFrom { from_index: 0x0102 }).unwrap();
    assert_eq!(from, vec![0, 0, 0, 0, 2, 1, 0, 0, 0, 0, 0, 0]);
    assert_eq!(decode_request(&from), Ok(SyncRequest::BlocksFrom { from_index: 0x0102 }));
    assert_eq!(decode_request(&from[..11]), Err(ProtocolError::Malformed));
    assert_eq!(decode_request(&[2, 0, 0, 0]), Err(ProtocolError::Malformed));
    assert_eq!(decode_request(&[]), Err(ProtocolError::Malformed));
    assert_eq!(
        bincode::serialize(&(0u32, 0x0102u64)).unwrap(),
        from
    );
}

#[test]
fn sync_response_round_trip() {
    let tip = encode_response(&SyncResponse::ChainTip { tip_index: 5 }).unwrap();
    assert_eq!(tip, vec![1, 0, 0, 0, 5, 0, 0, 0, 0, 0, 0, 0]);
    assert!(matches!(decode_response(&tip), Ok(SyncResponse::ChainTip { tip_index: 5 })));

    let mut chain = Blockchain::new();
    for i in 0..3u8 {
        chain.add_block(vec![sample_tx(i)]).unwrap();
    }
    chain.verify_block(2, "peer-x".into()).unwrap();
    let blocks: Vec<Block> = chain.blocks_from(1).to_vec();
    let bytes = encode_response(&SyncResponse::Blocks(blocks.clone())).unwrap();
    assert_eq!(bytes, encode_blocks_response(chain.blocks_from(1)));
    assert_eq!(&bytes[..12], &[0, 0, 0, 0, 3, 0, 0, 0, 0, 0, 0, 0]);
    match decode_response(&bytes).unwrap() {
        SyncResponse::Blocks(got) => {
            assert_eq!(got.len(), 3);
            for (g, b) in got.iter().zip(blocks.iter()) {
                assert!(same_block(g, b));
                assert_eq!(g.hash(), b.hash());
            }
        }
        other => panic!("unexpected response {:?}", other),
    }
    for cut in 0..bytes.len() {
        assert!(decode_response(&bytes[..cut]).is_err());
    }
    let empty = encode_response(&SyncResponse::Blocks(vec![])).unwrap();
    assert!(matches!(decode_response(&empty), Ok(SyncResponse::Blocks(b)) if b.is_empty()));
    assert!(matches!(decode_response(&[7, 0, 0, 0]), Err(ProtocolError::Malformed)));
}
