//! Applies a [`SyncStrategy`] to a remote chain segment and keeps count of
//! the bytes taken.

use crate::blockchain::block::{Block, BlockView};
use crate::blockchain::blockchain::Blockchain;
use crate::sync::error::SyncError;
use crate::sync::strategy::SyncStrategy;
use crate::transaction::transaction::{Transaction, TransactionView};
use vstd::prelude::*;

verus! {

/// Fixed allowance for the header fields of a block, in bytes.
pub const BLOCK_OVERHEAD: u64 = 256;

/// Sum of the payload lengths of `txs`.
pub open spec fn payload_total(txs: Seq<TransactionView>) -> nat
    decreases txs.len(),
{
    if txs.len() == 0 {
        0
    } else {
        payload_total(txs.drop_last()) + txs.last().payload.len()
    }
}

/// Estimated size of a block: its payload bytes plus a fixed overhead.
pub open spec fn estimated_size(b: BlockView) -> nat {
    payload_total(b.transactions) + BLOCK_OVERHEAD as nat
}

/// The blocks of `blocks` that lie beyond a local chain of `local_len`
/// blocks, in order.
pub open spec fn beyond_tip(blocks: Seq<BlockView>, local_len: nat) -> Seq<BlockView> {
    blocks.filter(|b: BlockView| b.index >= local_len)
}

/// The blocks of `blocks` whose timestamp lies in `[from, to]`, in order.
pub open spec fn within_window(blocks: Seq<BlockView>, from: i64, to: i64) -> Seq<BlockView> {
    blocks.filter(|b: BlockView| from <= b.timestamp <= to)
}

/// The longest prefix of `blocks` that can be taken, one block after the
/// other, without the bytes used rising above `max`; `used` bytes are spent
/// already.
pub open spec fn within_budget(blocks: Seq<BlockView>, used: nat, max: nat) -> Seq<BlockView>
    decreases blocks.len(),
{
    if blocks.len() == 0 || used + estimated_size(blocks[0]) > max {
        Seq::empty()
    } else {
        seq![blocks[0]] + within_budget(
            blocks.drop_first(),
            used + estimated_size(blocks[0]),
            max,
        )
    }
}

/// Sum of the estimated sizes of `blocks`.
pub open spec fn size_total(blocks: Seq<BlockView>) -> nat
    decreases blocks.len(),
{
    if blocks.len() == 0 {
        0
    } else {
        estimated_size(blocks[0]) + size_total(blocks.drop_first())
    }
}

/// The sync policy's state: the strategy and the bytes taken under it.
pub struct SyncView {
    pub strategy: SyncStrategy,
    pub downloaded_bytes: u64,
}

impl SyncView {
    /// True iff the strategy cannot be applied: a time range that ends before
    /// it starts.
    pub open spec fn rejects(self) -> bool {
        self.strategy matches SyncStrategy::TimeRange { from, to } && from > to
    }

    /// The blocks of `remote` that the policy takes for a local chain of
    /// `local_len` blocks.
    pub open spec fn selection(self, local_len: nat, remote: Seq<BlockView>) -> Seq<BlockView> {
        match self.strategy {
            SyncStrategy::OnDemand => Seq::empty(),
            SyncStrategy::TimeRange { from, to } => within_window(
                beyond_tip(remote, local_len),
                from,
                to,
            ),
            SyncStrategy::SizeLimit { max_bytes } => within_budget(
                beyond_tip(remote, local_len),
                self.downloaded_bytes as nat,
                max_bytes as nat,
            ),
        }
    }

    /// The counter after `size` more bytes: it stops at the largest value it
    /// can hold.
    pub open spec fn counted(self, size: nat) -> u64 {
        if self.downloaded_bytes + size <= u64::MAX {
            (self.downloaded_bytes + size) as u64
        } else {
            u64::MAX
        }
    }
}

/// Blocks taken within a budget fit the budget.
pub proof fn lemma_within_budget_fits(blocks: Seq<BlockView>, used: nat, max: nat)
    requires
        used <= max,
    ensures
        used + size_total(within_budget(blocks, used, max)) <= max,
        within_budget(blocks, used, max).len() <= blocks.len(),
    decreases blocks.len(),
{
    if blocks.len() == 0 || used + estimated_size(blocks[0]) > max {
    } else {
        let rest = within_budget(blocks.drop_first(), used + estimated_size(blocks[0]), max);
        lemma_within_budget_fits(blocks.drop_first(), used + estimated_size(blocks[0]), max);
        let taken = within_budget(blocks, used, max);
        assert(taken.drop_first() =~= rest);
        assert(taken[0] == blocks[0]);
    }
}

/// Estimates the size of a block; `None` when the estimate does not fit in
/// 64 bits.
pub fn estimated_block_size(block: &Block) -> (r: Option<u64>)
    ensures
        match r {
            Some(size) => size == estimated_size(block@),
            None => estimated_size(block@) > u64::MAX,
        },
{
    let mut total: u64 = 0;
    let mut i: usize = 0;
    let ghost txs = block.transactions.deep_view();
    assert(txs.take(0) =~= Seq::<TransactionView>::empty());
    while i < block.transactions.len()
        invariant
            i <= block.transactions@.len(),
            txs == block.transactions.deep_view(),
            total == payload_total(txs.take(i as int)),
        decreases block.transactions@.len() - i,
    {
        let len = block.transactions[i].payload.len() as u64;
        proof {
            assert(txs.take(i + 1).drop_last() =~= txs.take(i as int));
            assert(txs.take(i + 1).last().payload.len() == len);
            lemma_payload_total_monotone(txs, i + 1);
        }
        total = match total.checked_add(len) {
            Some(sum) => sum,
            None => { return None; },
        };
        i += 1;
    }
    assert(txs.take(i as int) =~= txs);
    total.checked_add(BLOCK_OVERHEAD)
}

/// The payload total of a prefix is at most that of the whole list.
pub proof fn lemma_payload_total_monotone(txs: Seq<TransactionView>, n: int)
    requires
        0 <= n <= txs.len(),
    ensures
        payload_total(txs.take(n)) <= payload_total(txs),
    decreases txs.len() - n,
{
    if n < txs.len() {
        lemma_payload_total_monotone(txs, n + 1);
        assert(txs.take(n + 1).drop_last() =~= txs.take(n));
    } else {
        assert(txs.take(n) =~= txs);
    }
}

/// Applies a [`SyncStrategy`] to decide which blocks of a remote chain
/// segment are taken, and counts the estimated bytes of the blocks taken.
#[derive(Debug)]
pub struct SyncManager {
    strategy: SyncStrategy,
    downloaded_bytes: u64,
}

impl View for SyncManager {
    type V = SyncView;

    closed spec fn view(&self) -> SyncView {
        SyncView { strategy: self.strategy, downloaded_bytes: self.downloaded_bytes }
    }
}

impl SyncManager {
    /// A policy with the given strategy and nothing downloaded yet.
    pub fn new(strategy: SyncStrategy) -> (manager: Self)
        ensures
            manager@ == (SyncView { strategy, downloaded_bytes: 0 }),
    {
        SyncManager { strategy, downloaded_bytes: 0 }
    }

    /// The active strategy.
    pub fn strategy(&self) -> (strategy: &SyncStrategy)
        ensures
            *strategy == self@.strategy,
    {
        &self.strategy
    }

    /// Changes the strategy and resets the byte counter.
    pub fn set_strategy(&mut self, strategy: SyncStrategy)
        ensures
            final(self)@ == (SyncView { strategy, downloaded_bytes: 0 }),
    {
        self.strategy = strategy;
        self.downloaded_bytes = 0;
    }

    /// Selects, from the blocks of a remote peer, those to apply locally
    /// under the active strategy. Only blocks beyond the local tip are
    /// considered. Under a size limit the bytes of the blocks taken are added
    /// to the counter.
    ///
    /// Fails with `InvalidTimeRange`, and only so, for a time range that ends
    /// before it starts.
    pub fn blocks_to_sync<'a>(&mut self, local: &Blockchain, remote_blocks: &'a [Block]) -> (r:
        Result<Vec<&'a Block>, SyncError>)
        ensures
            final(self)@.strategy == old(self)@.strategy,
            r is Err <==> old(self)@.rejects(),
            r matches Err(e) ==> e is InvalidTimeRange && final(self)@ == old(self)@,
            r matches Ok(taken) ==> {
                &&& taken.deep_view() == old(self)@.selection(
                    local@.len(),
                    remote_blocks.deep_view(),
                )
                &&& final(self)@.downloaded_bytes == if old(self)@.strategy is SizeLimit {
                    old(self)@.downloaded_bytes + size_total(taken.deep_view())
                } else {
                    old(self)@.downloaded_bytes as int
                }
            },
    {
        let local_len = local.len() as u64;
        let ghost remote = remote_blocks.deep_view();
        let ghost beyond = |b: BlockView| b.index >= local@.len();
        let mut new_blocks: Vec<&Block> = Vec::new();
        let mut i: usize = 0;
        assert(remote.take(0) =~= Seq::<BlockView>::empty());
        while i < remote_blocks.len()
            invariant
                i <= remote_blocks@.len(),
                local_len == local@.len(),
                remote == remote_blocks.deep_view(),
                beyond == |b: BlockView| b.index >= local@.len(),
                new_blocks.deep_view() == remote.take(i as int).filter(beyond),
            decreases remote_blocks@.len() - i,
        {
            let block = &remote_blocks[i];
            let ghost before = new_blocks.deep_view();
            proof {
                assert(remote.take(i + 1).drop_last() =~= remote.take(i as int));
                assert(remote.take(i + 1).last() == block@);
                reveal(Seq::filter);
            }
            if block.index >= local_len {
                new_blocks.push(block);
                assert(new_blocks.deep_view() =~= before.push(block@));
            }
            i += 1;
        }
        assert(remote.take(i as int) =~= remote);
        assert(new_blocks.deep_view() == beyond_tip(remote, local@.len()));
        match self.strategy {
            SyncStrategy::OnDemand => {
                let none: Vec<&Block> = Vec::new();
                assert(none.deep_view() =~= Seq::<BlockView>::empty());
                Ok(none)
            },
            SyncStrategy::TimeRange { from, to } => {
                if from > to {
                    return Err(SyncError::InvalidTimeRange);
                }
                let ghost eligible = new_blocks.deep_view();
                let ghost inside = |b: BlockView| from <= b.timestamp <= to;
                let mut taken: Vec<&Block> = Vec::new();
                let mut j: usize = 0;
                assert(eligible.take(0) =~= Seq::<BlockView>::empty());
                while j < new_blocks.len()
                    invariant
                        j <= new_blocks@.len(),
                        eligible == new_blocks.deep_view(),
                        inside == |b: BlockView| from <= b.timestamp <= to,
                        taken.deep_view() == eligible.take(j as int).filter(inside),
                    decreases new_blocks@.len() - j,
                {
                    let block = new_blocks[j];
                    let ghost before = taken.deep_view();
                    proof {
                        assert(eligible.take(j + 1).drop_last() =~= eligible.take(j as int));
                        assert(eligible.take(j + 1).last() == block@);
                        reveal(Seq::filter);
                    }
                    if block.timestamp >= from && block.timestamp <= to {
                        taken.push(block);
                        assert(taken.deep_view() =~= before.push(block@));
                    }
                    j += 1;
                }
                assert(eligible.take(j as int) =~= eligible);
                Ok(taken)
            },
            SyncStrategy::SizeLimit { max_bytes } => {
                let ghost eligible = new_blocks.deep_view();
                let ghost used0 = self.downloaded_bytes as nat;
                let mut taken: Vec<&Block> = Vec::new();
                let mut j: usize = 0;
                proof {
                    assert(taken.deep_view() =~= Seq::<BlockView>::empty());
                    assert(eligible.skip(0) =~= eligible);
                    assert(taken.deep_view() + within_budget(eligible, used0, max_bytes as nat)
                        =~= within_budget(eligible, used0, max_bytes as nat));
                }
                while j < new_blocks.len()
                    invariant
                        j <= new_blocks@.len(),
                        eligible == new_blocks.deep_view(),
                        self.strategy == old(self).strategy,
                        taken.deep_view().len() == j,
                        self.downloaded_bytes == used0 + size_total(taken.deep_view()),
                        taken.deep_view() + within_budget(
                            eligible.skip(j as int),
                            self.downloaded_bytes as nat,
                            max_bytes as nat,
                        ) == within_budget(eligible, used0, max_bytes as nat),
                    ensures
                        self.strategy == old(self).strategy,
                        self.downloaded_bytes == used0 + size_total(taken.deep_view()),
                        taken.deep_view() == within_budget(eligible, used0, max_bytes as nat),
                    decreases new_blocks@.len() - j,
                {
                    let block = new_blocks[j];
                    let ghost before = taken.deep_view();
                    let ghost rest = eligible.skip(j as int);
                    assert(rest[0] == block@);
                    assert(rest.drop_first() =~= eligible.skip(j + 1));
                    let fits = match estimated_block_size(block) {
                        None => None,
                        Some(estimated) => match self.downloaded_bytes.checked_add(estimated) {
                            None => None,
                            Some(sum) => if sum > max_bytes {
                                None
                            } else {
                                Some(sum)
                            },
                        },
                    };
                    match fits {
                        None => {
                            assert(within_budget(
                                rest,
                                self.downloaded_bytes as nat,
                                max_bytes as nat,
                            ) =~= Seq::<BlockView>::empty());
                            assert(before + Seq::<BlockView>::empty() =~= before);
                            break ;
                        },
                        Some(sum) => {
                            proof {
                                let tail = within_budget(
                                    eligible.skip(j + 1),
                                    sum as nat,
                                    max_bytes as nat,
                                );
                                assert(within_budget(
                                    rest,
                                    self.downloaded_bytes as nat,
                                    max_bytes as nat,
                                ) =~= seq![block@] + tail);
                                assert(before.push(block@) + tail =~= before + (seq![block@]
                                    + tail));
                                lemma_size_total_push(before, block@);
                            }
                            self.downloaded_bytes = sum;
                            taken.push(block);
                            assert(taken.deep_view() =~= before.push(block@));
                        },
                    }
                    j += 1;
                }
                proof {
                    if j == new_blocks@.len() {
                        assert(eligible.skip(j as int) =~= Seq::<BlockView>::empty());
                        assert(taken.deep_view() + Seq::<BlockView>::empty()
                            =~= taken.deep_view());
                    }
                }
                Ok(taken)
            },
        }
    }

    /// Counts a block that was taken by another path. The counter stops at
    /// the largest value it can hold.
    pub fn record_download(&mut self, block: &Block)
        ensures
            final(self)@ == (SyncView {
                downloaded_bytes: old(self)@.counted(estimated_size(block@)),
                ..old(self)@
            }),
    {
        self.downloaded_bytes = match estimated_block_size(block) {
            None => u64::MAX,
            Some(estimated) => match self.downloaded_bytes.checked_add(estimated) {
                None => u64::MAX,
                Some(sum) => sum,
            },
        };
    }

    /// Estimated bytes of the blocks taken since the strategy was set.
    pub fn downloaded_bytes(&self) -> (bytes: u64)
        ensures
            bytes == self@.downloaded_bytes,
    {
        self.downloaded_bytes
    }
}

/// The size total of a list grows by the size of a block appended to it.
pub proof fn lemma_size_total_push(blocks: Seq<BlockView>, next: BlockView)
    ensures
        size_total(blocks.push(next)) == size_total(blocks) + estimated_size(next),
    decreases blocks.len(),
{
    if blocks.len() == 0 {
        assert(blocks.push(next).drop_first() =~= Seq::<BlockView>::empty());
        assert(size_total(blocks.push(next).drop_first()) == 0);
    } else {
        assert(blocks.push(next).drop_first() =~= blocks.drop_first().push(next));
        lemma_size_total_push(blocks.drop_first(), next);
    }
}

} // verus!
