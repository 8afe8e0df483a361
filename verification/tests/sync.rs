use spn_core::blockchain::{Block, Blockchain};
use spn_core::sync::manager::estimated_block_size;
use spn_core::sync::{SyncError, SyncManager, SyncStrategy};
use spn_core::transaction::{Transaction, TransactionType};

fn make_chain_with_blocks(count: usize) -> Blockchain {
    let mut chain = Blockchain::new();
    for _ in 0..count {
        chain
            .add_block(vec![Transaction::new(
                TransactionType::PostCreated,
                b"hello".to_vec(),
            )])
            .unwrap();
    }
    chain
}

fn block_at(index: u64, timestamp: i64, payload_len: usize) -> Block {
    let txs = vec![Transaction::from_parts(
        [index as u8; 16],
        TransactionType::PostCreated,
        vec![0u8; payload_len],
        0,
    )];
    Block::sealed_at(index, [0u8; 32], txs, timestamp).unwrap()
}

#[test]
fn on_demand_returns_no_blocks() {
    let local = Blockchain::new();
    let remote = make_chain_with_blocks(3);
    let mut mgr = SyncManager::new(SyncStrategy::OnDemand);
    let result = mgr.blocks_to_sync(&local, remote.blocks()).unwrap();
    assert!(result.is_empty());
}

#[test]
fn size_limit_caps_downloaded_blocks() {
    let local = Blockchain::new();
    let remote = make_chain_with_blocks(10);

    // Each block has payload ~5 bytes + 256 overhead = 261 bytes.
    // Limit of 600 bytes should let through at most 2 blocks.
    let mut mgr = SyncManager::new(SyncStrategy::SizeLimit { max_bytes: 600 });
    let blocks = mgr.blocks_to_sync(&local, remote.blocks()).unwrap();
    assert!(blocks.len() <= 2);
}

#[test]
fn time_range_filters_by_timestamp() {
    let local = Blockchain::new();
    let remote = make_chain_with_blocks(3);

    // All blocks in the remote chain have a real timestamp; set a range
    // that excludes all of them (far future).
    let mut mgr = SyncManager::new(SyncStrategy::TimeRange {
        from: i64::MAX - 1,
        to: i64::MAX,
    });
    let blocks = mgr.blocks_to_sync(&local, remote.blocks()).unwrap();
    assert!(blocks.is_empty());
}

#[test]
fn invalid_time_range_returns_error() {
    let local = Blockchain::new();
    let remote = make_chain_with_blocks(1);
    let mut mgr = SyncManager::new(SyncStrategy::TimeRange { from: 100, to: 50 });
    assert!(mgr.blocks_to_sync(&local, remote.blocks()).is_err());
}

#[test]
fn sync_strategy_defaults_to_on_demand() {
    assert_eq!(SyncStrategy::default(), SyncStrategy::OnDemand);
}

#[test]
fn invalid_time_range_is_the_only_error() {
    let local = Blockchain::new();
    let remote = make_chain_with_blocks(2);
    let mut mgr = SyncManager::new(SyncStrategy::TimeRange { from: 1, to: 0 });
    assert!(matches!(
        mgr.blocks_to_sync(&local, remote.blocks()),
        Err(SyncError::InvalidTimeRange)
    ));
    assert_eq!(mgr.downloaded_bytes(), 0);
    let mut mgr = SyncManager::new(SyncStrategy::TimeRange { from: 5, to: 5 });
    assert!(mgr.blocks_to_sync(&local, remote.blocks()).is_ok());
    let mut mgr = SyncManager::new(SyncStrategy::TimeRange { from: i64::MIN, to: i64::MAX });
    assert_eq!(mgr.blocks_to_sync(&local, remote.blocks()).unwrap().len(), 2);
}

#[test]
fn estimated_size_is_payload_plus_overhead() {
    assert_eq!(estimated_block_size(&block_at(1, 0, 5)), Some(261));
    assert_eq!(estimated_block_size(&block_at(1, 0, 0)), Some(256));
    let mut two = block_at(1, 0, 100);
    two.transactions.push(Transaction::from_parts(
        [0u8; 16],
        TransactionType::PostCreated,
        vec![0u8; 44],
        0,
    ));
    assert_eq!(estimated_block_size(&two), Some(400));
    // Only payloads count: signatures and verifications do not.
    two.transactions[0].sign(vec![1; 50]);
    two.add_verification("peer".to_string());
    assert_eq!(estimated_block_size(&two), Some(400));
}

#[test]
fn size_limit_takes_exactly_the_blocks_that_fit() {
    let local = Blockchain::new();
    let remote = make_chain_with_blocks(10);
    let mut mgr = SyncManager::new(SyncStrategy::SizeLimit { max_bytes: 600 });
    let blocks = mgr.blocks_to_sync(&local, remote.blocks()).unwrap();
    assert_eq!(blocks.len(), 2);
    assert_eq!(blocks[0].index, 1);
    assert_eq!(blocks[1].index, 2);
    assert_eq!(mgr.downloaded_bytes(), 522);
    // The budget is spent: a second pass takes nothing more.
    let again = mgr.blocks_to_sync(&local, remote.blocks()).unwrap();
    assert!(again.is_empty());
    assert_eq!(mgr.downloaded_bytes(), 522);
}

#[test]
fn size_limit_boundaries() {
    let local = Blockchain::new();
    let remote = make_chain_with_blocks(3);
    let mut exact = SyncManager::new(SyncStrategy::SizeLimit { max_bytes: 522 });
    assert_eq!(exact.blocks_to_sync(&local, remote.blocks()).unwrap().len(), 2);
    let mut below = SyncManager::new(SyncStrategy::SizeLimit { max_bytes: 521 });
    assert_eq!(below.blocks_to_sync(&local, remote.blocks()).unwrap().len(), 1);
    let mut none = SyncManager::new(SyncStrategy::SizeLimit { max_bytes: 260 });
    assert!(none.blocks_to_sync(&local, remote.blocks()).unwrap().is_empty());
    assert_eq!(none.downloaded_bytes(), 0);
    let mut all = SyncManager::new(SyncStrategy::SizeLimit { max_bytes: u64::MAX });
    assert_eq!(all.blocks_to_sync(&local, remote.blocks()).unwrap().len(), 3);
    assert_eq!(all.downloaded_bytes(), 783);
}

#[test]
fn size_limit_stops_at_the_first_block_that_does_not_fit() {
    let local = Blockchain::new();
    let remote = vec![block_at(1, 0, 10), block_at(2, 0, 1000), block_at(3, 0, 10)];
    let mut mgr = SyncManager::new(SyncStrategy::SizeLimit { max_bytes: 600 });
    let blocks = mgr.blocks_to_sync(&local, &remote).unwrap();
    // The third block would fit, but selection stops at the second.
    assert_eq!(blocks.len(), 1);
    assert_eq!(blocks[0].index, 1);
    assert_eq!(mgr.downloaded_bytes(), 266);
}

#[test]
fn only_blocks_beyond_the_local_tip_are_considered() {
    let local = make_chain_with_blocks(2);
    let remote = make_chain_with_blocks(5);
    let mut mgr = SyncManager::new(SyncStrategy::TimeRange { from: i64::MIN, to: i64::MAX });
    let blocks = mgr.blocks_to_sync(&local, remote.blocks()).unwrap();
    let heights: Vec<u64> = blocks.iter().map(|b| b.index).collect();
    assert_eq!(heights, vec![3, 4, 5]);
    assert_eq!(mgr.downloaded_bytes(), 0);
}

#[test]
fn time_range_is_inclusive_on_both_ends() {
    let local = Blockchain::new();
    let remote = vec![
        block_at(1, 99, 1),
        block_at(2, 100, 1),
        block_at(3, 150, 1),
        block_at(4, 200, 1),
        block_at(5, 201, 1),
    ];
    let mut mgr = SyncManager::new(SyncStrategy::TimeRange { from: 100, to: 200 });
    let blocks = mgr.blocks_to_sync(&local, &remote).unwrap();
    let heights: Vec<u64> = blocks.iter().map(|b| b.index).collect();
    assert_eq!(heights, vec![2, 3, 4]);
}

#[test]
fn record_download_counts_and_set_strategy_resets() {
    let mut mgr = SyncManager::new(SyncStrategy::OnDemand);
    assert_eq!(mgr.downloaded_bytes(), 0);
    assert_eq!(*mgr.strategy(), SyncStrategy::OnDemand);
    mgr.record_download(&block_at(1, 0, 5));
    mgr.record_download(&block_at(2, 0, 44));
    assert_eq!(mgr.downloaded_bytes(), 561);
    mgr.set_strategy(SyncStrategy::SizeLimit { max_bytes: 1000 });
    assert_eq!(mgr.downloaded_bytes(), 0);
    assert_eq!(*mgr.strategy(), SyncStrategy::SizeLimit { max_bytes: 1000 });
    // Bytes recorded by another path count against the limit.
    mgr.record_download(&block_at(1, 0, 500));
    let local = Blockchain::new();
    let remote = make_chain_with_blocks(3);
    let blocks = mgr.blocks_to_sync(&local, remote.blocks()).unwrap();
    assert!(blocks.is_empty());
    assert_eq!(mgr.downloaded_bytes(), 756);
}
