use spn_core::transaction::{Transaction, TransactionError, TransactionType};

fn fixed(kind: TransactionType, payload: &[u8]) -> Transaction {
    Transaction {
        id: [0u8; 16],
        kind,
        payload: payload.to_vec(),
        timestamp: 0,
        signature: vec![],
    }
}

#[test]
fn new_transaction_has_unique_ids() {
    let a = Transaction::new(TransactionType::UserRegistered, b"payload-a".to_vec());
    let b = Transaction::new(TransactionType::UserRegistered, b"payload-b".to_vec());
    assert_ne!(a.id, b.id);
}

#[test]
fn hash_is_deterministic_for_same_data() {
    let tx = Transaction {
        id: [0u8; 16],
        kind: TransactionType::ProjectPosted,
        payload: b"hello".to_vec(),
        timestamp: 0,
        signature: vec![],
    };
    assert_eq!(tx.hash().unwrap(), tx.hash().unwrap());
}

#[test]
fn different_payloads_produce_different_hashes() {
    let make = |p: &[u8]| Transaction {
        id: [0u8; 16],
        kind: TransactionType::PostCreated,
        payload: p.to_vec(),
        timestamp: 0,
        signature: vec![],
    };
    assert_ne!(make(b"a").hash().unwrap(), make(b"b").hash().unwrap());
}

#[test]
fn new_transaction_is_unsigned_and_carries_its_arguments() {
    let tx = Transaction::new(TransactionType::VoteCast, b"ballot".to_vec());
    assert_eq!(tx.kind, TransactionType::VoteCast);
    assert_eq!(tx.payload, b"ballot".to_vec());
    assert!(tx.signature.is_empty());
    assert!(!tx.is_signed());
}

#[test]
fn new_transaction_id_is_a_version_four_identifier() {
    for _ in 0..32 {
        let tx = Transaction::new(TransactionType::PostCreated, vec![]);
        assert_eq!(tx.id[6] >> 4, 4);
        assert_eq!(tx.id[8] >> 6, 2);
    }
}

#[test]
fn new_transaction_is_stamped_with_the_present() {
    let tx = Transaction::new(TransactionType::PostCreated, vec![]);
    // Later than 2023-01-01 and earlier than 2100-01-01.
    assert!(tx.timestamp > 1_672_531_200);
    assert!(tx.timestamp < 4_102_444_800);
}

#[test]
fn from_parts_builds_the_given_transaction() {
    let tx = Transaction::from_parts([7u8; 16], TransactionType::OrgEdited, vec![1, 2, 3], -5);
    assert_eq!(tx.id, [7u8; 16]);
    assert_eq!(tx.kind, TransactionType::OrgEdited);
    assert_eq!(tx.payload, vec![1, 2, 3]);
    assert_eq!(tx.timestamp, -5);
    assert!(tx.signature.is_empty());
}

#[test]
fn canonical_bytes_have_the_documented_layout() {
    let tx = fixed(TransactionType::ProjectPosted, b"hello");
    let mut bytes = Vec::new();
    tx.encode(&mut bytes);
    let mut expected: Vec<u8> = Vec::new();
    expected.extend_from_slice(&16u64.to_le_bytes());
    expected.extend_from_slice(&[0u8; 16]);
    expected.extend_from_slice(&6u32.to_le_bytes());
    expected.extend_from_slice(&5u64.to_le_bytes());
    expected.extend_from_slice(b"hello");
    expected.extend_from_slice(&0i64.to_le_bytes());
    expected.extend_from_slice(&0u64.to_le_bytes());
    assert_eq!(bytes, expected);
    assert_eq!(bytes.len(), 57);
}

#[test]
fn canonical_bytes_of_a_negative_timestamp_are_twos_complement() {
    let mut id = [0u8; 16];
    for (i, b) in id.iter_mut().enumerate() {
        *b = i as u8;
    }
    let tx = Transaction {
        id,
        kind: TransactionType::NodeRemoved,
        payload: vec![],
        timestamp: -2,
        signature: vec![1, 2],
    };
    let mut bytes = vec![0xAA];
    tx.encode(&mut bytes);
    let expected = "aa1000000000000000000102030405060708090a0b0c0d0e0f190000000000000000000000feffffffffffffff02000000000000000102";
    assert_eq!(hex::encode(&bytes), expected);
}

#[test]
fn hash_is_sha256_of_the_canonical_bytes() {
    let tx = fixed(TransactionType::ProjectPosted, b"hello");
    let expected: [u8; 32] = [
        92, 138, 37, 54, 56, 228, 168, 53, 8, 18, 58, 57, 195, 145, 25, 77, 175, 119, 177, 101,
        77, 166, 219, 117, 43, 159, 173, 41, 123, 127, 137, 35,
    ];
    assert_eq!(tx.hash().unwrap(), expected);
}

#[test]
fn hash_hex_is_lower_case_hexadecimal_of_the_hash() {
    let tx = fixed(TransactionType::ProjectPosted, b"hello");
    assert_eq!(
        tx.hash_hex().unwrap(),
        "5c8a253638e4a83508123a39c391194daf77b1654da6db752b9fad297b7f8923"
    );
}

#[test]
fn transactions_with_equal_fields_have_equal_hashes() {
    let a = Transaction::from_parts([9u8; 16], TransactionType::EventAdded, vec![4, 5], 77);
    let b = Transaction::from_parts([9u8; 16], TransactionType::EventAdded, vec![4, 5], 77);
    assert_eq!(a, b);
    assert_eq!(a.hash().unwrap(), b.hash().unwrap());
    assert_eq!(a.clone().hash().unwrap(), a.hash().unwrap());
}

#[test]
fn a_difference_in_any_field_changes_the_hash() {
    let base = Transaction::from_parts([9u8; 16], TransactionType::EventAdded, vec![4, 5], 77);
    let h = base.hash().unwrap();

    let mut other = base.clone();
    other.id[15] = 8;
    assert_ne!(other.hash().unwrap(), h);

    let mut other = base.clone();
    other.kind = TransactionType::EventEdited;
    assert_ne!(other.hash().unwrap(), h);

    let mut other = base.clone();
    other.payload.push(0);
    assert_ne!(other.hash().unwrap(), h);

    let mut other = base.clone();
    other.timestamp = 78;
    assert_ne!(other.hash().unwrap(), h);

    let mut other = base.clone();
    other.sign(vec![1]);
    assert_ne!(other.hash().unwrap(), h);
}

#[test]
fn moving_a_byte_between_payload_and_signature_changes_the_hash() {
    let mut a = Transaction::from_parts([0u8; 16], TransactionType::PostCreated, vec![1, 2], 0);
    a.sign(vec![3]);
    let mut b = Transaction::from_parts([0u8; 16], TransactionType::PostCreated, vec![1], 0);
    b.sign(vec![2, 3]);
    assert_ne!(a.hash().unwrap(), b.hash().unwrap());
}

#[test]
fn sign_replaces_the_signature() {
    let mut tx = fixed(TransactionType::UserEdited, b"x");
    assert!(!tx.is_signed());
    tx.sign(vec![1, 2, 3]);
    assert!(tx.is_signed());
    assert_eq!(tx.signature, vec![1, 2, 3]);
    tx.sign(vec![9]);
    assert_eq!(tx.signature, vec![9]);
    tx.sign(vec![]);
    assert!(!tx.is_signed());
    assert_eq!(tx.kind, TransactionType::UserEdited);
    assert_eq!(tx.payload, b"x".to_vec());
}

#[test]
fn decode_reads_back_what_encode_wrote() {
    let mut tx = Transaction::from_parts([5u8; 16], TransactionType::RsvpChanged, vec![7; 300], -1);
    tx.sign(vec![8; 64]);
    let mut bytes = vec![1, 2, 3];
    tx.encode(&mut bytes);
    let end = bytes.len();
    bytes.extend_from_slice(&[0xFF; 4]);
    let (got, next) = Transaction::decode(&bytes, 3).unwrap();
    assert_eq!(got, tx);
    assert_eq!(next, end);
}

#[test]
fn decode_rejects_truncated_and_malformed_bytes() {
    let tx = fixed(TransactionType::NodeRemoved, b"payload");
    let mut bytes = Vec::new();
    tx.encode(&mut bytes);
    for cut in 0..bytes.len() {
        assert!(Transaction::decode(&bytes[..cut], 0).is_none());
    }
    // An identifier that is not sixteen bytes long.
    let mut short_id = Vec::new();
    short_id.extend_from_slice(&15u64.to_le_bytes());
    short_id.extend_from_slice(&[0u8; 15]);
    short_id.extend_from_slice(&bytes[24..]);
    assert!(Transaction::decode(&short_id, 0).is_none());
    // A kind tag beyond the last kind.
    let mut bad_tag = bytes.clone();
    bad_tag[24] = 26;
    assert!(Transaction::decode(&bad_tag, 0).is_none());
    let mut last_tag = bytes.clone();
    last_tag[24] = 25;
    assert!(Transaction::decode(&last_tag, 0).is_some());
    // A length that runs past the end of the input.
    let mut long_payload = bytes.clone();
    long_payload[28] = 200;
    assert!(Transaction::decode(&long_payload, 0).is_none());
}

#[test]
fn kind_tags_follow_declaration_order() {
    let kinds = [
        TransactionType::UserRegistered,
        TransactionType::UserEdited,
        TransactionType::UserUnregistered,
        TransactionType::OrgRegistered,
        TransactionType::OrgEdited,
        TransactionType::OrgUnregistered,
        TransactionType::ProjectPosted,
        TransactionType::ProjectEdited,
        TransactionType::ProjectStatusChanged,
        TransactionType::ProjectUpdateAdded,
        TransactionType::ProjectUpdateEdited,
        TransactionType::ProjectUpdateDeleted,
        TransactionType::FundingCreated,
        TransactionType::FundingFunded,
        TransactionType::FundingDistributed,
        TransactionType::PostCreated,
        TransactionType::PostUpdated,
        TransactionType::PostDeleted,
        TransactionType::CommentAdded,
        TransactionType::EventAdded,
        TransactionType::EventEdited,
        TransactionType::EventCancelled,
        TransactionType::RsvpChanged,
        TransactionType::VoteCast,
        TransactionType::NodeAdded,
        TransactionType::NodeRemoved,
    ];
    for (i, kind) in kinds.iter().enumerate() {
        assert_eq!(kind.tag(), i as u32);
        assert_eq!(TransactionType::from_tag(i as u32), Some(*kind));
    }
    assert_eq!(TransactionType::from_tag(26), None);
    assert_eq!(TransactionType::from_tag(u32::MAX), None);
}

#[test]
fn error_messages_name_the_failure() {
    assert_eq!(TransactionError::InvalidSignature.message(), "invalid signature");
    assert_eq!(TransactionError::InvalidId.message(), "invalid transaction id");
    assert_eq!(
        TransactionError::Serialization("too long".to_string()).message(),
        "serialization error: too long"
    );
}

#[test]
fn bytes_agree_with_the_reference_serializer() {
    let mut tx = Transaction::from_parts(
        [0xA1, 0xA2, 0xA3, 0xA4, 0xB1, 0xB2, 0xC1, 0xC2, 0xD1, 0xD2, 0xD3, 0xD4, 0xD5, 0xD6, 0xD7, 0xD8],
        TransactionType::FundingFunded,
        b"{\"amount\":12}".to_vec(),
        1_700_000_000,
    );
    tx.sign(vec![0xEE; 64]);
    let mut bytes = Vec::new();
    tx.encode(&mut bytes);
    let reference = bincode::serialize(&(
        uuid::Uuid::from_bytes(tx.id),
        tx.kind.tag(),
        tx.payload.clone(),
        tx.timestamp,
        tx.signature.clone(),
    ))
    .unwrap();
    assert_eq!(bytes, reference);
}
