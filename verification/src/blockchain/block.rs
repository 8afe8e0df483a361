//! A block: a bundle of transactions under a header, with the set of peers
//! that have verified it.

use crate::ambient::unix_now;
use crate::blockchain::error::BlockchainError;
use crate::hashing::{hex_encode, hex_lower, sha256, sha256_digest};
use crate::merkle::tree::{leaf_hashes, merkle_root, MerkleTree};
use crate::transaction::transaction::{Transaction, TransactionView};
use crate::transaction::transaction_type::TransactionType;
use crate::wire::{append_bytes, le_i64, le_u64, put_i64, put_u64};
use vstd::pervasive::unreached;
use vstd::prelude::*;

verus! {

/// Number of distinct peer verifications at which a block is finalised.
pub const MIN_VERIFICATIONS: usize = 3;

/// The mathematical content of a [`Block`].
pub struct BlockView {
    pub index: u64,
    pub prev_hash: Seq<u8>,
    pub merkle_root: Seq<u8>,
    pub transactions: Seq<TransactionView>,
    pub timestamp: i64,
    pub nonce: u64,
    pub verifications: Seq<Seq<char>>,
}

impl BlockView {
    /// The bytes the block hash is taken over: height, previous hash, Merkle
    /// root, timestamp and nonce. Transactions and verifications are left
    /// out, so recording a verification never changes the hash.
    pub open spec fn header_bytes(self) -> Seq<u8> {
        le_u64(self.index) + self.prev_hash + self.merkle_root + le_i64(self.timestamp) + le_u64(
            self.nonce,
        )
    }

    /// SHA-256 of the header bytes.
    pub open spec fn hash(self) -> Seq<u8> {
        sha256(self.header_bytes())
    }

    /// True iff enough distinct peers have verified the block.
    pub open spec fn is_finalised(self) -> bool {
        self.verifications.len() >= MIN_VERIFICATIONS
    }

    /// The block after `peer` has verified it: the peer is added unless it is
    /// recorded already.
    pub open spec fn with_verification(self, peer: Seq<char>) -> BlockView {
        if self.verifications.contains(peer) {
            self
        } else {
            BlockView { verifications: self.verifications.push(peer), ..self }
        }
    }

    /// No peer is recorded twice.
    pub open spec fn verifications_distinct(self) -> bool {
        self.verifications.no_duplicates()
    }

    /// The Merkle root commits to the transactions of the block.
    pub open spec fn root_matches(self) -> bool {
        self.merkle_root == merkle_root(leaf_hashes(self.transactions))
    }
}

/// The payload of the one transaction of the genesis block: the
/// ASCII bytes of `genesis`.
pub open spec fn genesis_payload() -> Seq<u8> {
    seq![103u8, 101u8, 110u8, 101u8, 115u8, 105u8, 115u8]
}

/// The one transaction of the genesis block, which records nothing.
pub open spec fn genesis_transaction() -> TransactionView {
    TransactionView {
        id: Seq::new(16, |i: int| 0u8),
        kind: TransactionType::NodeAdded,
        payload: genesis_payload(),
        timestamp: 0,
        signature: Seq::empty(),
    }
}

/// The genesis block: the same constant on every node.
pub open spec fn genesis_spec() -> BlockView {
    BlockView {
        index: 0,
        prev_hash: Seq::new(32, |i: int| 0u8),
        merkle_root: merkle_root(leaf_hashes(seq![genesis_transaction()])),
        transactions: seq![genesis_transaction()],
        timestamp: 0,
        nonce: 0,
        verifications: Seq::empty(),
    }
}

/// Recording a verification changes neither the header nor the hash.
pub proof fn lemma_verification_keeps_hash(b: BlockView, peer: Seq<char>)
    ensures
        b.with_verification(peer).hash() == b.hash(),
        b.with_verification(peer).header_bytes() == b.header_bytes(),
        b.with_verification(peer).index == b.index,
        b.with_verification(peer).prev_hash == b.prev_hash,
        b.with_verification(peer).transactions == b.transactions,
{
}

/// Recording a verification keeps the recorded peers distinct, and records
/// the peer.
pub proof fn lemma_verification_keeps_distinct(b: BlockView, peer: Seq<char>)
    requires
        b.verifications_distinct(),
    ensures
        b.with_verification(peer).verifications_distinct(),
        b.with_verification(peer).verifications.contains(peer),
        b.with_verification(peer).with_verification(peer) == b.with_verification(peer),
{
    let after = b.with_verification(peer).verifications;
    if !b.verifications.contains(peer) {
        assert(after[after.len() - 1] == peer);
        assert forall|i: int, j: int|
            0 <= i < after.len() && 0 <= j < after.len() && i != j implies after[i]
            != after[j] by {
            if i < b.verifications.len() {
                assert(b.verifications.contains(after[i]));
            }
            if j < b.verifications.len() {
                assert(b.verifications.contains(after[j]));
            }
        }
    }
}

/// A block with no verifications is not finalised by one verification nor by
/// a second; a third from a peer distinct from the first two finalises it.
pub proof fn lemma_third_verification_finalises(
    b: BlockView,
    first: Seq<char>,
    second: Seq<char>,
    third: Seq<char>,
)
    requires
        b.verifications.len() == 0,
        first != second,
        first != third,
        second != third,
    ensures
        !b.with_verification(first).is_finalised(),
        !b.with_verification(first).with_verification(second).is_finalised(),
        b.with_verification(first).with_verification(second).with_verification(
            third,
        ).is_finalised(),
        b.with_verification(first).with_verification(second).with_verification(
            third,
        ).verifications == seq![first, second, third],
{
    let after_one = b.with_verification(first);
    assert(after_one.verifications =~= seq![first]);
    assert(!after_one.verifications.contains(second)) by {
        if after_one.verifications.contains(second) {
            let i = choose|i: int|
                0 <= i < after_one.verifications.len() && after_one.verifications[i] == second;
        }
    }
    let after_two = after_one.with_verification(second);
    assert(after_two.verifications =~= seq![first, second]);
    assert(!after_two.verifications.contains(third)) by {
        if after_two.verifications.contains(third) {
            let i = choose|i: int|
                0 <= i < after_two.verifications.len() && after_two.verifications[i] == third;
        }
    }
    let after_three = after_two.with_verification(third);
    assert(after_three.verifications =~= seq![first, second, third]);
}

/// Finalisation is monotone: whoever verifies a finalised block, it stays
/// finalised.
pub proof fn lemma_finalised_stays(b: BlockView, peer: Seq<char>)
    requires
        b.is_finalised(),
    ensures
        b.with_verification(peer).is_finalised(),
{
}

/// A single block of the chain.
///
/// A block is finalised once at least [`MIN_VERIFICATIONS`] distinct peers
/// are recorded in `verifications`.
#[derive(Debug)]
pub struct Block {
    /// Sequential block height (genesis = 0).
    pub index: u64,
    /// Hash of the previous block; all zeros for the genesis block.
    pub prev_hash: [u8; 32],
    /// Merkle root of `transactions`.
    pub merkle_root: [u8; 32],
    /// The transactions bundled in this block.
    pub transactions: Vec<Transaction>,
    /// Unix timestamp (seconds) of creation.
    pub timestamp: i64,
    /// Reserved; always zero for blocks built here.
    pub nonce: u64,
    /// Identifiers of the peers that have verified this block.
    pub verifications: Vec<String>,
}

impl View for Block {
    type V = BlockView;

    open spec fn view(&self) -> BlockView {
        BlockView {
            index: self.index,
            prev_hash: self.prev_hash@,
            merkle_root: self.merkle_root@,
            transactions: self.transactions.deep_view(),
            timestamp: self.timestamp,
            nonce: self.nonce,
            verifications: self.verifications.deep_view(),
        }
    }
}

impl DeepView for Block {
    type V = BlockView;

    open spec fn deep_view(&self) -> BlockView {
        self@
    }
}

/// Copies a list of transactions.
pub fn clone_transactions(txs: &Vec<Transaction>) -> (copy: Vec<Transaction>)
    ensures
        copy.deep_view() == txs.deep_view(),
{
    let mut copy: Vec<Transaction> = Vec::new();
    let mut i: usize = 0;
    while i < txs.len()
        invariant
            i <= txs@.len(),
            copy@.len() == i,
            forall|j: int| 0 <= j < i ==> (#[trigger] copy@[j])@ == txs@[j]@,
        decreases txs@.len() - i,
    {
        copy.push(txs[i].clone());
        i += 1;
    }
    assert(copy.deep_view() =~= txs.deep_view());
    copy
}

/// Copies a list of peer identifiers.
pub fn clone_peers(peers: &Vec<String>) -> (copy: Vec<String>)
    ensures
        copy.deep_view() == peers.deep_view(),
{
    let mut copy: Vec<String> = Vec::new();
    let mut i: usize = 0;
    while i < peers.len()
        invariant
            i <= peers@.len(),
            copy@.len() == i,
            forall|j: int| 0 <= j < i ==> (#[trigger] copy@[j])@ == peers@[j]@,
        decreases peers@.len() - i,
    {
        copy.push(peers[i].clone());
        i += 1;
    }
    assert(copy.deep_view() =~= peers.deep_view());
    copy
}

/// True when no peer identifier occurs twice in `peers`.
pub fn peers_distinct(peers: &Vec<String>) -> (distinct: bool)
    ensures
        distinct == peers.deep_view().no_duplicates(),
{
    let ghost list = peers.deep_view();
    let mut i: usize = 0;
    while i < peers.len()
        invariant
            i <= peers@.len(),
            list == peers.deep_view(),
            forall|a: int, b: int| 0 <= a < b < i ==> list[a] != list[b],
        decreases peers@.len() - i,
    {
        let mut j: usize = 0;
        while j < i
            invariant
                j <= i < peers@.len(),
                list == peers.deep_view(),
                forall|a: int| 0 <= a < j ==> list[a] != list[i as int],
            decreases i - j,
        {
            if peers[j] == peers[i] {
                assert(list[j as int] == list[i as int]);
                return false;
            }
            j += 1;
        }
        i += 1;
    }
    assert forall|a: int, b: int|
        0 <= a < list.len() && 0 <= b < list.len() && a != b implies list[a] != list[b] by {
        if a < b {
            assert(list[a] != list[b]);
        } else {
            assert(list[b] != list[a]);
        }
    }
    true
}

impl Clone for Block {
    fn clone(&self) -> (copy: Self)
        ensures
            copy@ == self@,
    {
        Block {
            index: self.index,
            prev_hash: self.prev_hash,
            merkle_root: self.merkle_root,
            transactions: clone_transactions(&self.transactions),
            timestamp: self.timestamp,
            nonce: self.nonce,
            verifications: clone_peers(&self.verifications),
        }
    }
}

impl Block {
    /// The hash of the header fields. Verifications are not part of it.
    pub fn hash(&self) -> (digest: [u8; 32])
        ensures
            digest@ == self@.hash(),
    {
        let mut header: Vec<u8> = Vec::new();
        put_u64(&mut header, self.index);
        append_bytes(&mut header, self.prev_hash.as_slice());
        append_bytes(&mut header, self.merkle_root.as_slice());
        put_i64(&mut header, self.timestamp);
        put_u64(&mut header, self.nonce);
        assert(header@ =~= self@.header_bytes());
        sha256_digest(header.as_slice())
    }

    /// The block hash in lower-case hexadecimal.
    pub fn hash_hex(&self) -> (text: String)
        ensures
            text@ == hex_lower(self@.hash()),
    {
        let digest = self.hash();
        hex_encode(digest.as_slice())
    }

    /// True when at least [`MIN_VERIFICATIONS`] peers have verified the block.
    pub fn is_finalised(&self) -> (finalised: bool)
        ensures
            finalised == self@.is_finalised(),
    {
        self.verifications.len() >= MIN_VERIFICATIONS
    }

    /// True when `peer_id` is recorded as a verifier.
    pub fn has_verification(&self, peer_id: &String) -> (found: bool)
        ensures
            found == self@.verifications.contains(peer_id@),
    {
        let mut i: usize = 0;
        while i < self.verifications.len()
            invariant
                i <= self.verifications@.len(),
                forall|j: int| 0 <= j < i ==> self@.verifications[j] != peer_id@,
            decreases self.verifications@.len() - i,
        {
            if self.verifications[i] == *peer_id {
                assert(self@.verifications[i as int] == peer_id@);
                return true;
            }
            i += 1;
        }
        false
    }

    /// Records a peer verification; a peer already recorded is not recorded
    /// again. Returns whether the block is finalised after the call.
    pub fn add_verification(&mut self, peer_id: String) -> (finalised: bool)
        ensures
            final(self)@ == old(self)@.with_verification(peer_id@),
            finalised == final(self)@.is_finalised(),
    {
        if !self.has_verification(&peer_id) {
            let ghost before = self.verifications.deep_view();
            self.verifications.push(peer_id);
            assert(self.verifications.deep_view() =~= before.push(peer_id@));
        }
        self.is_finalised()
    }

    /// Builds a block over `transactions` on top of a known previous hash,
    /// stamped with the current time. Fails with `NoTransactions`, and only
    /// so, when the list is empty.
    pub fn new(index: u64, prev_hash: [u8; 32], transactions: Vec<Transaction>) -> (r: Result<
        Self,
        BlockchainError,
    >)
        ensures
            transactions@.len() == 0 <==> r is Err,
            r matches Err(e) ==> e is NoTransactions,
            r matches Ok(block) ==> block@ == (BlockView {
                index,
                prev_hash: prev_hash@,
                merkle_root: merkle_root(leaf_hashes(transactions.deep_view())),
                transactions: transactions.deep_view(),
                timestamp: block@.timestamp,
                nonce: 0,
                verifications: Seq::empty(),
            }),
    {
        let timestamp = unix_now();
        Block::sealed_at(index, prev_hash, transactions, timestamp)
    }

    /// Builds a block over `transactions` with a given timestamp. Fails with
    /// `NoTransactions`, and only so, when the list is empty.
    pub fn sealed_at(
        index: u64,
        prev_hash: [u8; 32],
        transactions: Vec<Transaction>,
        timestamp: i64,
    ) -> (r: Result<Self, BlockchainError>)
        ensures
            transactions@.len() == 0 <==> r is Err,
            r matches Err(e) ==> e is NoTransactions,
            r matches Ok(block) ==> block@ == (BlockView {
                index,
                prev_hash: prev_hash@,
                merkle_root: merkle_root(leaf_hashes(transactions.deep_view())),
                transactions: transactions.deep_view(),
                timestamp,
                nonce: 0,
                verifications: Seq::empty(),
            }),
    {
        if transactions.len() == 0 {
            return Err(BlockchainError::NoTransactions);
        }
        let tree = match MerkleTree::new(transactions.as_slice()) {
            Ok(tree) => tree,
            Err(e) => { return Err(BlockchainError::Merkle(e)); },
        };
        let merkle_root = match tree.root_hash() {
            Ok(root) => root,
            Err(e) => { return Err(BlockchainError::Merkle(e)); },
        };
        let verifications: Vec<String> = Vec::new();
        assert(verifications.deep_view() =~= Seq::<Seq<char>>::empty());
        Ok(
            Block {
                index,
                prev_hash,
                merkle_root,
                transactions,
                timestamp,
                nonce: 0,
                verifications,
            },
        )
    }

    /// The genesis block: height zero, all-zero previous hash, timestamp
    /// zero, and one transaction that records nothing.
    pub fn genesis() -> (block: Self)
        ensures
            block@ == genesis_spec(),
    {
        let payload: Vec<u8> = vec![103u8, 101u8, 110u8, 101u8, 115u8, 105u8, 115u8];
        assert(payload@ =~= genesis_payload());
        let id = [0u8; 16];
        assert(id@ =~= Seq::new(16, |i: int| 0u8));
        let marker = Transaction::from_parts(id, TransactionType::NodeAdded, payload, 0);
        let mut transactions: Vec<Transaction> = Vec::new();
        transactions.push(marker);
        assert(transactions.deep_view() =~= seq![genesis_transaction()]);
        let prev_hash = [0u8; 32];
        assert(prev_hash@ =~= Seq::new(32, |i: int| 0u8));
        match Block::sealed_at(0, prev_hash, transactions, 0) {
            Ok(block) => block,
            Err(_) => unreached(),
        }
    }
}

} // verus!
