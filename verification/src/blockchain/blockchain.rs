//! The append-only chain of blocks and the longest-chain rule.

use crate::blockchain::block::{
    genesis_spec, lemma_verification_keeps_distinct, lemma_verification_keeps_hash,
    peers_distinct, Block, BlockView,
};
use crate::blockchain::error::BlockchainError;
use crate::hashing::digest_eq;
use crate::transaction::transaction::Transaction;
use vstd::prelude::*;
use vstd::slice::slice_subrange;

verus! {

/// True iff `b` is the genesis block, whoever has verified it since.
pub open spec fn is_genesis(b: BlockView) -> bool {
    b == (BlockView { verifications: b.verifications, ..genesis_spec() })
}

/// What holds of every chain value: it starts with the genesis block, each
/// block's height is its position, every later block carries at least one
/// transaction, and no block records a verifying peer twice.
pub open spec fn chain_wf(blocks: Seq<BlockView>) -> bool {
    &&& blocks.len() >= 1
    &&& is_genesis(blocks[0])
    &&& forall|i: int| 0 <= i < blocks.len() ==> (#[trigger] blocks[i]).index == i
    &&& forall|i: int| 1 <= i < blocks.len() ==> (#[trigger] blocks[i]).transactions.len() >= 1
    &&& forall|i: int| 0 <= i < blocks.len() ==> (#[trigger] blocks[i]).verifications_distinct()
}

/// True iff block `i + 1` names block `i` as its predecessor: by hash and by
/// height.
pub open spec fn linked(blocks: Seq<BlockView>, i: int) -> bool {
    &&& blocks[i + 1].prev_hash == blocks[i].hash()
    &&& blocks[i + 1].index == blocks[i].index + 1
}

/// Structural validity: the chain is not empty and every block after the
/// first is linked to the one before it. Merkle roots are not rechecked.
pub open spec fn chain_valid(blocks: Seq<BlockView>) -> bool {
    &&& blocks.len() >= 1
    &&& forall|i: int| 0 <= i < blocks.len() - 1 ==> linked(blocks, i)
}

/// True iff the longest-chain rule replaces `local` by `other`: `other` is
/// strictly longer and valid. A tie keeps the local chain.
pub open spec fn adopts(local: Seq<BlockView>, other: Seq<BlockView>) -> bool {
    other.len() > local.len() && chain_valid(other)
}

/// The local chain after the longest-chain rule has seen `other`.
pub open spec fn sync_result(local: Seq<BlockView>, other: Seq<BlockView>) -> Seq<BlockView> {
    if adopts(local, other) {
        other
    } else {
        local
    }
}

/// True iff `blocks` can continue the chain `local` from the height of the
/// first of them: there is a block, the first lies above the genesis block
/// and not beyond the end of `local`, heights rise by one, every block
/// carries a transaction, and none records a verifying peer twice.
pub open spec fn attachable(local: Seq<BlockView>, blocks: Seq<BlockView>) -> bool {
    &&& blocks.len() >= 1
    &&& 1 <= blocks[0].index <= local.len()
    &&& forall|j: int|
        0 <= j < blocks.len() ==> {
            &&& (#[trigger] blocks[j]).index == blocks[0].index + j
            &&& blocks[j].transactions.len() >= 1
            &&& blocks[j].verifications_distinct()
        }
}

/// The chain a peer claims when it sends `blocks`: the local chain up to the
/// height of the first of them, then the blocks. `None` when the blocks
/// cannot continue the local chain.
pub open spec fn candidate(local: Seq<BlockView>, blocks: Seq<BlockView>) -> Option<
    Seq<BlockView>,
> {
    if attachable(local, blocks) {
        Some(local.take(blocks[0].index as int) + blocks)
    } else {
        None
    }
}

/// A candidate of a well-formed chain is a well-formed chain.
pub proof fn lemma_candidate_wf(local: Seq<BlockView>, blocks: Seq<BlockView>)
    requires
        chain_wf(local),
        attachable(local, blocks),
    ensures
        chain_wf(local.take(blocks[0].index as int) + blocks),
{
    let k = blocks[0].index as int;
    let joined = local.take(k) + blocks;
    assert(joined[0] == local[0]);
    assert forall|i: int| 0 <= i < joined.len() implies (#[trigger] joined[i]).index == i by {
        if i < k {
            assert(local[i].index == i);
        } else {
            assert(blocks[i - k].index == k + (i - k));
        }
    }
    assert forall|i: int| 1 <= i < joined.len() implies (#[trigger] joined[i]).transactions.len()
        >= 1 by {
        if i < k {
            assert(local[i].transactions.len() >= 1);
        } else {
            assert(blocks[i - k].transactions.len() >= 1);
        }
    }
    assert forall|i: int| 0 <= i < joined.len() implies (
    #[trigger] joined[i]).verifications_distinct() by {
        if i < k {
            assert(local[i].verifications_distinct());
        } else {
            assert(blocks[i - k].verifications_distinct());
        }
    }
}

/// Seeing the same chain a second time changes nothing and adopts nothing.
pub proof fn lemma_sync_idempotent(local: Seq<BlockView>, other: Seq<BlockView>)
    ensures
        !adopts(sync_result(local, other), other),
        sync_result(sync_result(local, other), other) == sync_result(local, other),
{
}

/// The longest-chain rule never shortens the local chain, and keeps a valid
/// local chain valid.
pub proof fn lemma_sync_monotone(local: Seq<BlockView>, other: Seq<BlockView>)
    ensures
        sync_result(local, other).len() >= local.len(),
        chain_valid(local) ==> chain_valid(sync_result(local, other)),
{
}

/// Appending a block that is linked to the tip keeps a valid chain valid.
pub proof fn lemma_push_keeps_valid(blocks: Seq<BlockView>, next: BlockView)
    requires
        chain_valid(blocks),
        next.prev_hash == blocks.last().hash(),
        next.index == blocks.last().index + 1,
    ensures
        chain_valid(blocks.push(next)),
{
    let longer = blocks.push(next);
    assert forall|i: int| 0 <= i < longer.len() - 1 implies linked(longer, i) by {
        if i < blocks.len() - 1 {
            assert(linked(blocks, i));
        }
    }
}

/// Recording a verification in one block keeps the chain well formed, and
/// keeps a valid chain valid: hashes do not depend on verifications.
pub proof fn lemma_verification_keeps_chain(blocks: Seq<BlockView>, at: int, peer: Seq<char>)
    requires
        0 <= at < blocks.len(),
    ensures
        chain_wf(blocks) ==> chain_wf(blocks.update(at, blocks[at].with_verification(peer))),
        chain_valid(blocks) ==> chain_valid(
            blocks.update(at, blocks[at].with_verification(peer)),
        ),
{
    let after = blocks.update(at, blocks[at].with_verification(peer));
    lemma_verification_keeps_hash(blocks[at], peer);
    if chain_wf(blocks) {
        lemma_verification_keeps_distinct(blocks[at], peer);
        assert forall|i: int| 0 <= i < after.len() implies (#[trigger] after[i]).index == i by {
            assert(blocks[i].index == i);
        }
        assert forall|i: int| 1 <= i < after.len() implies (#[trigger] after[i]).transactions.len()
            >= 1 by {
            assert(blocks[i].transactions.len() >= 1);
        }
        assert forall|i: int| 0 <= i < after.len() implies (
        #[trigger] after[i]).verifications_distinct() by {
            assert(blocks[i].verifications_distinct());
        }
    }
    if chain_valid(blocks) {
        assert forall|i: int| 0 <= i < after.len() - 1 implies linked(after, i) by {
            assert(linked(blocks, i));
        }
    }
}

/// The append-only chain of blocks that forms the ledger.
#[derive(Debug)]
pub struct Blockchain {
    blocks: Vec<Block>,
}

impl View for Blockchain {
    type V = Seq<BlockView>;

    closed spec fn view(&self) -> Seq<BlockView> {
        self.blocks.deep_view()
    }
}

impl Clone for Blockchain {
    fn clone(&self) -> (copy: Self)
        ensures
            copy@ == self@,
    {
        let mut blocks: Vec<Block> = Vec::new();
        let mut i: usize = 0;
        while i < self.blocks.len()
            invariant
                i <= self.blocks@.len(),
                blocks@.len() == i,
                forall|j: int| 0 <= j < i ==> (#[trigger] blocks@[j])@ == self.blocks@[j]@,
            decreases self.blocks@.len() - i,
        {
            blocks.push(self.blocks[i].clone());
            i += 1;
        }
        assert(blocks.deep_view() =~= self.blocks.deep_view());
        Blockchain { blocks }
    }
}

impl Default for Blockchain {
    fn default() -> (chain: Self)
        ensures
            chain@ == seq![genesis_spec()],
            chain.wf(),
            chain_valid(chain@),
    {
        Blockchain::new()
    }
}

impl Blockchain {
    /// Every chain value is well formed; see [`chain_wf`].
    pub open spec fn wf(&self) -> bool {
        chain_wf(self@)
    }

    /// A chain that holds the genesis block alone.
    pub fn new() -> (chain: Self)
        ensures
            chain@ == seq![genesis_spec()],
            chain.wf(),
            chain_valid(chain@),
    {
        let mut blocks: Vec<Block> = Vec::new();
        blocks.push(Block::genesis());
        assert(blocks.deep_view() =~= seq![genesis_spec()]);
        assert(genesis_spec().verifications.no_duplicates());
        Blockchain { blocks }
    }

    /// Number of blocks in the chain, genesis included.
    pub fn len(&self) -> (n: usize)
        ensures
            n == self@.len(),
    {
        self.blocks.len()
    }

    /// True when the chain holds no block, which a chain never does.
    pub fn is_empty(&self) -> (empty: bool)
        ensures
            empty == (self@.len() == 0),
    {
        self.blocks.len() == 0
    }

    /// The most recent block.
    pub fn tip(&self) -> (block: &Block)
        requires
            self.wf(),
        ensures
            block@ == self@.last(),
    {
        &self.blocks[self.blocks.len() - 1]
    }

    /// Appends a new block over `transactions` on top of the tip. Fails with
    /// `NoTransactions`, and only so, when the list is empty; the chain is
    /// then unchanged.
    pub fn add_block(&mut self, transactions: Vec<Transaction>) -> (r: Result<
        &Block,
        BlockchainError,
    >)
        requires
            old(self).wf(),
        ensures
            final(self).wf(),
            chain_valid(old(self)@) ==> chain_valid(final(self)@),
            transactions@.len() == 0 <==> r is Err,
            r matches Err(e) ==> e is NoTransactions && final(self)@ == old(self)@,
            r matches Ok(block) ==> {
                &&& final(self)@ == old(self)@.push(block@)
                &&& block@.index == old(self)@.len()
                &&& block@.prev_hash == old(self)@.last().hash()
                &&& block@.transactions == transactions.deep_view()
                &&& block@.root_matches()
                &&& block@.nonce == 0
                &&& block@.verifications.len() == 0
            },
    {
        let prev_hash = self.tip().hash();
        assert(self@.last().index == self@.len() - 1);
        assert(self.blocks.len() <= usize::MAX);
        let index = self.tip().index + 1;
        let block = match Block::new(index, prev_hash, transactions) {
            Ok(block) => block,
            Err(e) => { return Err(e); },
        };
        proof {
            let before = self.blocks.deep_view();
            let after = before.push(block@);
            assert(block@.verifications.no_duplicates());
            assert forall|i: int| 0 <= i < after.len() implies (#[trigger] after[i]).index == i by {
                if i < before.len() {
                    assert(before[i].index == i);
                }
            }
            assert forall|i: int| 1 <= i < after.len() implies (
            #[trigger] after[i]).transactions.len() >= 1 by {
                if i < before.len() {
                    assert(before[i].transactions.len() >= 1);
                }
            }
            assert forall|i: int| 0 <= i < after.len() implies (
            #[trigger] after[i]).verifications_distinct() by {
                if i < before.len() {
                    assert(before[i].verifications_distinct());
                }
            }
            if chain_valid(before) {
                lemma_push_keeps_valid(before, block@);
            }
        }
        let ghost before = self.blocks.deep_view();
        self.blocks.push(block);
        assert(self.blocks.deep_view() =~= before.push(block@));
        Ok(&self.blocks[self.blocks.len() - 1])
    }

    /// Records that `peer_id` has verified the block at height `block_index`.
    /// Returns whether that block is finalised after the call, whether or not
    /// this call made it so. Fails with `BlockNotFound`, and only so, when the
    /// chain has no block of that height; the chain is then unchanged.
    pub fn verify_block(&mut self, block_index: u64, peer_id: String) -> (r: Result<
        bool,
        BlockchainError,
    >)
        requires
            old(self).wf(),
        ensures
            final(self).wf(),
            chain_valid(old(self)@) ==> chain_valid(final(self)@),
            block_index >= old(self)@.len() <==> r is Err,
            r matches Err(e) ==> e == BlockchainError::BlockNotFound(block_index) && final(self)@
                == old(self)@,
            r matches Ok(finalised) ==> {
                &&& final(self)@ == old(self)@.update(
                    block_index as int,
                    old(self)@[block_index as int].with_verification(peer_id@),
                )
                &&& finalised == final(self)@[block_index as int].is_finalised()
            },
    {
        if block_index >= self.blocks.len() as u64 {
            return Err(BlockchainError::BlockNotFound(block_index));
        }
        let at = block_index as usize;
        let ghost before = self.blocks.deep_view();
        let finalised = self.blocks[at].add_verification(peer_id);
        proof {
            assert(self.blocks.deep_view() =~= before.update(
                at as int,
                before[at as int].with_verification(peer_id@),
            ));
            lemma_verification_keeps_chain(before, at as int, peer_id@);
        }
        Ok(finalised)
    }

    /// The block at height `index`, if the chain has one.
    pub fn get_block(&self, index: u64) -> (r: Option<&Block>)
        ensures
            index < self@.len() ==> (r matches Some(block) && block@ == self@[index as int]),
            index >= self@.len() ==> r is None,
    {
        if index >= self.blocks.len() as u64 {
            None
        } else {
            Some(&self.blocks[index as usize])
        }
    }

    /// All blocks from height `start_index` to the tip; empty when
    /// `start_index` lies beyond the tip.
    pub fn blocks_from(&self, start_index: u64) -> (r: &[Block])
        ensures
            start_index < self@.len() ==> r.deep_view() == self@.skip(start_index as int),
            start_index >= self@.len() ==> r.deep_view() == Seq::<BlockView>::empty(),
    {
        let all = self.blocks.as_slice();
        let start = if start_index >= all.len() as u64 {
            all.len()
        } else {
            start_index as usize
        };
        let tail = slice_subrange(all, start, all.len());
        assert(tail.deep_view() =~= self.blocks.deep_view().skip(start as int));
        tail
    }

    /// All blocks of the chain.
    pub fn blocks(&self) -> (r: &[Block])
        ensures
            r.deep_view() == self@,
    {
        let all = self.blocks.as_slice();
        assert(all.deep_view() =~= self.blocks.deep_view());
        all
    }

    /// Assembles the chain a peer claims by sending `received`: a copy of this
    /// chain up to the height of the first received block, then the received
    /// blocks. `None` when the blocks cannot continue this chain; see
    /// [`attachable`]. Whether the result is valid is for [`Self::is_valid`]
    /// to say.
    pub fn with_received(&self, received: &[Block]) -> (r: Option<Blockchain>)
        requires
            self.wf(),
        ensures
            match candidate(self@, received.deep_view()) {
                Some(chain) => r matches Some(got) && got@ == chain && got.wf(),
                None => r is None,
            },
    {
        let ghost blocks = received.deep_view();
        if received.len() == 0 {
            return None;
        }
        let first = received[0].index;
        if first < 1 || first > self.blocks.len() as u64 {
            return None;
        }
        let mut j: usize = 0;
        while j < received.len()
            invariant
                j <= received@.len(),
                blocks == received.deep_view(),
                blocks.len() >= 1,
                first == blocks[0].index,
                forall|i: int|
                    0 <= i < j ==> {
                        &&& (#[trigger] blocks[i]).index == first + i
                        &&& blocks[i].transactions.len() >= 1
                        &&& blocks[i].verifications_distinct()
                    },
            decreases received@.len() - j,
        {
            let block = &received[j];
            let fits = match first.checked_add(j as u64) {
                Some(height) => block.index == height,
                None => false,
            };
            if !fits || block.transactions.len() == 0 || !peers_distinct(&block.verifications) {
                assert(!attachable(self@, blocks)) by {
                    assert(blocks[j as int] == block@);
                }
                return None;
            }
            j += 1;
        }
        assert(attachable(self@, blocks));
        let keep = first as usize;
        let ghost target = self@.take(keep as int) + blocks;
        let mut joined: Vec<Block> = Vec::new();
        let mut i: usize = 0;
        while i < keep
            invariant
                i <= keep <= self.blocks@.len(),
                joined@.len() == i,
                forall|n: int| 0 <= n < i ==> (#[trigger] joined@[n])@ == self.blocks@[n]@,
            decreases keep - i,
        {
            joined.push(self.blocks[i].clone());
            i += 1;
        }
        let mut j: usize = 0;
        while j < received.len()
            invariant
                j <= received@.len(),
                keep <= self.blocks@.len(),
                joined@.len() == keep + j,
                forall|n: int| 0 <= n < keep ==> (#[trigger] joined@[n])@ == self.blocks@[n]@,
                forall|n: int| 0 <= n < j ==> (#[trigger] joined@[keep + n])@ == received@[n]@,
            decreases received@.len() - j,
        {
            joined.push(received[j].clone());
            j += 1;
        }
        proof {
            assert(joined.deep_view() =~= target) by {
                assert forall|n: int| 0 <= n < target.len() implies joined.deep_view()[n]
                    == target[n] by {
                    if n >= keep {
                        assert(joined@[keep + (n - keep)]@ == received@[n - keep]@);
                    }
                }
            }
            lemma_candidate_wf(self@, blocks);
        }
        Some(Blockchain { blocks: joined })
    }

    /// Checks that the chain is not empty and that every block names the one
    /// before it as its predecessor, by hash and by height.
    pub fn is_valid(&self) -> (valid: bool)
        ensures
            valid == chain_valid(self@),
    {
        if self.blocks.len() == 0 {
            return false;
        }
        let mut i: usize = 0;
        while i < self.blocks.len() - 1
            invariant
                self.blocks@.len() >= 1,
                i <= self.blocks@.len() - 1,
                forall|j: int| 0 <= j < i ==> linked(self@, j),
            decreases self.blocks@.len() - i,
        {
            let prev = &self.blocks[i];
            let next = &self.blocks[i + 1];
            let prev_hash = prev.hash();
            if !digest_eq(&next.prev_hash, &prev_hash) {
                assert(!linked(self@, i as int));
                return false;
            }
            if prev.index == u64::MAX || next.index != prev.index + 1 {
                assert(!linked(self@, i as int));
                return false;
            }
            i += 1;
        }
        true
    }

    /// The longest-chain rule: replaces this chain by a copy of `other` if
    /// `other` is strictly longer and valid, and leaves it untouched
    /// otherwise. Returns whether `other` was adopted.
    pub fn sync_from(&mut self, other: &Blockchain) -> (adopted: bool)
        requires
            old(self).wf(),
            other.wf(),
        ensures
            final(self).wf(),
            adopted == adopts(old(self)@, other@),
            final(self)@ == sync_result(old(self)@, other@),
            final(self)@.len() >= old(self)@.len(),
            chain_valid(old(self)@) ==> chain_valid(final(self)@),
    {
        if other.len() > self.len() && other.is_valid() {
            *self = other.clone();
            true
        } else {
            false
        }
    }
}

} // verus!
