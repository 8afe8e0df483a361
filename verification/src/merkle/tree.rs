//! The Merkle tree over a list of transactions.
//!
//! The leaf level holds the transaction hashes in input order. Each further
//! level pairs adjacent hashes of the level below; the last hash of a level of
//! odd width is paired with itself. The top level holds the root alone.

use crate::hashing::{hex_encode, hex_lower};
use crate::merkle::error::MerkleError;
use crate::merkle::inclusion::{
    climb, climb_one, hash_pair, hash_pair_spec, MerkleProof, MerkleProofView, ProofNode,
    ProofNodeView, ProofSide,
};
use crate::transaction::transaction::{Transaction, TransactionView};
use vstd::prelude::*;

verus! {

/// The hashes of the transactions, in order: the leaf level of their tree.
pub open spec fn leaf_hashes(txs: Seq<TransactionView>) -> Seq<Seq<u8>> {
    Seq::new(txs.len(), |i: int| txs[i].hash())
}

/// The right child of the `i`-th pair of `level`: the hash after the left
/// child, or the left child again where the level ends with it.
pub open spec fn right_child(level: Seq<Seq<u8>>, i: int) -> Seq<u8> {
    if 2 * i + 1 < level.len() {
        level[2 * i + 1]
    } else {
        level[2 * i]
    }
}

/// The level above `level`: one hash for each pair.
pub open spec fn parent_level(level: Seq<Seq<u8>>) -> Seq<Seq<u8>> {
    Seq::new(
        ((level.len() + 1) / 2) as nat,
        |i: int| hash_pair_spec(level[2 * i], right_child(level, i)),
    )
}

/// All levels of the tree over `leaves`, from the leaves to the root.
pub open spec fn merkle_levels(leaves: Seq<Seq<u8>>) -> Seq<Seq<Seq<u8>>>
    decreases leaves.len(),
{
    if leaves.len() <= 1 {
        seq![leaves]
    } else {
        seq![leaves] + merkle_levels(parent_level(leaves))
    }
}

/// The root of the tree over `leaves` (meaningful for at least one leaf).
pub open spec fn merkle_root(leaves: Seq<Seq<u8>>) -> Seq<u8>
    decreases leaves.len(),
{
    if leaves.len() <= 1 {
        leaves[0]
    } else {
        merkle_root(parent_level(leaves))
    }
}

/// The proof step for the node at `index` of `level`: its sibling and the side
/// the sibling is on. An even index has its sibling on the right (itself, if
/// it is the last of an odd level); an odd index has it on the left.
pub open spec fn sibling_step(level: Seq<Seq<u8>>, index: int) -> ProofNodeView {
    if index % 2 == 0 {
        ProofNodeView { hash: right_child(level, index / 2), side: ProofSide::Right }
    } else {
        ProofNodeView { hash: level[index - 1], side: ProofSide::Left }
    }
}

/// The sibling steps from leaf `index` up to just below the root.
pub open spec fn inclusion_path(leaves: Seq<Seq<u8>>, index: int) -> Seq<ProofNodeView>
    decreases leaves.len(),
{
    if leaves.len() <= 1 {
        Seq::empty()
    } else {
        seq![sibling_step(leaves, index)] + inclusion_path(parent_level(leaves), index / 2)
    }
}

/// The inclusion proof for leaf `index` of the tree over `leaves`.
pub open spec fn inclusion_proof_spec(leaves: Seq<Seq<u8>>, index: int) -> MerkleProofView {
    MerkleProofView { leaf_hash: leaves[index], path: inclusion_path(leaves, index) }
}

/// True iff `i` is the first position of `txs` whose transaction has `id`.
pub open spec fn is_first_with_id(txs: Seq<TransactionView>, id: Seq<u8>, i: int) -> bool {
    &&& 0 <= i < txs.len()
    &&& txs[i].id == id
    &&& forall|j: int| 0 <= j < i ==> txs[j].id != id
}

/// The tree over `leaves` has its leaves as first level and its root alone as
/// last level; it has one level exactly when there is at most one leaf.
pub proof fn lemma_levels_shape(leaves: Seq<Seq<u8>>)
    requires
        leaves.len() >= 1,
    ensures
        merkle_levels(leaves).len() >= 1,
        merkle_levels(leaves)[0] == leaves,
        merkle_levels(leaves).len() == 1 <==> leaves.len() == 1,
        merkle_levels(leaves).last() == seq![merkle_root(leaves)],
        leaves.len() > 1 ==> merkle_levels(leaves).skip(1) == merkle_levels(parent_level(leaves)),
    decreases leaves.len(),
{
    if leaves.len() > 1 {
        let up = parent_level(leaves);
        lemma_levels_shape(up);
        assert(merkle_levels(leaves).skip(1) =~= merkle_levels(up));
        assert(merkle_levels(leaves).last() == merkle_levels(up).last());
    } else {
        assert(leaves =~= seq![leaves[0]]);
    }
}

/// One proof step leads from a node to its parent.
pub proof fn lemma_step_reaches_parent(level: Seq<Seq<u8>>, index: int)
    requires
        0 <= index < level.len(),
    ensures
        0 <= index / 2 < parent_level(level).len(),
        climb_one(level[index], sibling_step(level, index)) == parent_level(level)[index / 2],
{
}

/// Every leaf's inclusion proof leads to the root of the tree.
pub proof fn lemma_inclusion_verifies(leaves: Seq<Seq<u8>>, index: int)
    requires
        0 <= index < leaves.len(),
    ensures
        inclusion_proof_spec(leaves, index).verifies(merkle_root(leaves)),
    decreases leaves.len(),
{
    if leaves.len() > 1 {
        let up = parent_level(leaves);
        let path = inclusion_path(leaves, index);
        lemma_step_reaches_parent(leaves, index);
        lemma_inclusion_verifies(up, index / 2);
        assert(path.drop_first() =~= inclusion_path(up, index / 2));
        assert(path[0] == sibling_step(leaves, index));
    }
}

/// No leaf's inclusion proof is accepted for a root other than the tree's.
pub proof fn lemma_inclusion_rejects_other_root(leaves: Seq<Seq<u8>>, index: int, other: Seq<u8>)
    requires
        0 <= index < leaves.len(),
        other != merkle_root(leaves),
    ensures
        !inclusion_proof_spec(leaves, index).verifies(other),
{
    lemma_inclusion_verifies(leaves, index);
}

/// Every transaction of a list has an inclusion proof in the tree over the
/// list: the proof of the first transaction with its identifier, which
/// leads to the root of the tree.
pub proof fn lemma_every_transaction_proves(txs: Seq<TransactionView>, k: int)
    requires
        0 <= k < txs.len(),
    ensures
        exists|i: int|
            #![trigger is_first_with_id(txs, txs[k].id, i)]
            is_first_with_id(txs, txs[k].id, i) && i <= k && inclusion_proof_spec(
                leaf_hashes(txs),
                i,
            ).verifies(merkle_root(leaf_hashes(txs))),
    decreases k,
{
    if exists|j: int| 0 <= j < k && txs[j].id == txs[k].id {
        let j = choose|j: int| 0 <= j < k && txs[j].id == txs[k].id;
        lemma_every_transaction_proves(txs, j);
        let i = choose|i: int|
            #![trigger is_first_with_id(txs, txs[j].id, i)]
            is_first_with_id(txs, txs[j].id, i) && i <= j && inclusion_proof_spec(
                leaf_hashes(txs),
                i,
            ).verifies(merkle_root(leaf_hashes(txs)));
        assert(is_first_with_id(txs, txs[k].id, i));
    } else {
        lemma_inclusion_verifies(leaf_hashes(txs), k);
        assert(is_first_with_id(txs, txs[k].id, k));
    }
}

/// The hashes of one stored level, as byte sequences.
pub open spec fn digests(level: Seq<[u8; 32]>) -> Seq<Seq<u8>> {
    Seq::new(level.len(), |i: int| level[i]@)
}

/// All stored levels, as byte sequences.
pub open spec fn level_views(levels: Seq<Vec<[u8; 32]>>) -> Seq<Seq<Seq<u8>>> {
    Seq::new(levels.len(), |i: int| digests(levels[i]@))
}

/// Computes the level above `level`.
fn build_parent(level: &Vec<[u8; 32]>) -> (parent: Vec<[u8; 32]>)
    requires
        level@.len() >= 1,
    ensures
        digests(parent@) == parent_level(digests(level@)),
{
    let n = level.len();
    let pairs = n / 2 + n % 2;
    let mut parent: Vec<[u8; 32]> = Vec::new();
    let mut i: usize = 0;
    while i < pairs
        invariant
            n == level@.len(),
            pairs == (n + 1) / 2,
            i <= pairs,
            parent@.len() == i,
            forall|j: int|
                0 <= j < i ==> (#[trigger] parent@[j])@ == parent_level(digests(level@))[j],
        decreases pairs - i,
    {
        let left = &level[2 * i];
        let right = if 2 * i + 1 < n {
            &level[2 * i + 1]
        } else {
            &level[2 * i]
        };
        let hash = hash_pair(left, right);
        parent.push(hash);
        i += 1;
    }
    assert(digests(parent@) =~= parent_level(digests(level@)));
    parent
}

/// Compares two transaction identifiers.
fn id_eq(a: &[u8; 16], b: &[u8; 16]) -> (same: bool)
    ensures
        same == (a@ == b@),
{
    let mut i: usize = 0;
    while i < 16
        invariant
            i <= 16,
            forall|j: int| 0 <= j < i ==> a@[j] == b@[j],
        decreases 16 - i,
    {
        if a[i] != b[i] {
            return false;
        }
        i += 1;
    }
    assert(a@ =~= b@);
    true
}

/// A binary Merkle tree built from a list of transactions. All levels are
/// kept, so inclusion proofs are read off without rehashing.
#[derive(Debug)]
pub struct MerkleTree {
    /// `levels[0]` holds the leaf hashes, the last level the root alone.
    levels: Vec<Vec<[u8; 32]>>,
}

impl View for MerkleTree {
    type V = Seq<Seq<Seq<u8>>>;

    closed spec fn view(&self) -> Seq<Seq<Seq<u8>>> {
        level_views(self.levels@)
    }
}

impl MerkleTree {
    #[verifier::type_invariant]
    spec fn inv(&self) -> bool {
        &&& self.levels@.len() >= 1
        &&& self.levels@[0]@.len() >= 1
        &&& level_views(self.levels@) == merkle_levels(digests(self.levels@[0]@))
    }

    /// The leaf level: the hashes the tree was built from.
    pub closed spec fn leaves(&self) -> Seq<Seq<u8>> {
        digests(self.levels@[0]@)
    }

    /// The root hash of the tree.
    pub open spec fn root_spec(&self) -> Seq<u8> {
        merkle_root(self.leaves())
    }

    /// Builds the tree over `transactions`. Fails with `Empty`, and only so,
    /// when the list is empty.
    pub fn new(transactions: &[Transaction]) -> (r: Result<Self, MerkleError>)
        ensures
            transactions@.len() == 0 <==> r is Err,
            r matches Err(e) ==> e is Empty,
            r matches Ok(tree) ==> tree.leaves() == leaf_hashes(transactions.deep_view())
                && tree@ == merkle_levels(tree.leaves()),
    {
        if transactions.len() == 0 {
            return Err(MerkleError::Empty);
        }
        let ghost target = leaf_hashes(transactions.deep_view());
        let mut leaves: Vec<[u8; 32]> = Vec::new();
        let mut i: usize = 0;
        while i < transactions.len()
            invariant
                i <= transactions@.len(),
                leaves@.len() == i,
                target == leaf_hashes(transactions.deep_view()),
                forall|j: int| 0 <= j < i ==> (#[trigger] leaves@[j])@ == target[j],
            decreases transactions@.len() - i,
        {
            match transactions[i].hash() {
                Ok(digest) => {
                    leaves.push(digest);
                },
                Err(e) => {
                    return Err(MerkleError::HashFailed(e.message()));
                },
            }
            i += 1;
        }
        assert(digests(leaves@) =~= target);
        let mut levels: Vec<Vec<[u8; 32]>> = Vec::new();
        levels.push(leaves);
        proof {
            lemma_levels_shape(target);
            assert(level_views(levels@) =~= merkle_levels(target).take(1));
            assert(merkle_levels(target).skip(0) =~= merkle_levels(target));
        }
        while levels[levels.len() - 1].len() > 1
            invariant
                levels@.len() >= 1,
                levels@[0]@.len() >= 1,
                digests(levels@[0]@) == target,
                levels@.last()@.len() >= 1,
                levels@.len() <= merkle_levels(target).len(),
                level_views(levels@) == merkle_levels(target).take(levels@.len() as int),
                merkle_levels(target).skip(levels@.len() - 1) == merkle_levels(
                    digests(levels@.last()@),
                ),
            decreases levels@.last()@.len(),
        {
            let ghost before = levels@;
            let ghost top = digests(levels@.last()@);
            let parent = build_parent(&levels[levels.len() - 1]);
            proof {
                lemma_levels_shape(top);
                lemma_levels_shape(parent_level(top));
                let all = merkle_levels(target);
                let k = before.len() as int;
                assert(all.skip(k) =~= all.skip(k - 1).skip(1));
                assert(all.skip(k).len() >= 1);
                assert(all[k] == all.skip(k)[0]);
            }
            levels.push(parent);
            proof {
                let all = merkle_levels(target);
                let k = before.len() as int;
                assert(level_views(levels@) =~= all.take(k + 1)) by {
                    assert forall|j: int| 0 <= j < k + 1 implies level_views(levels@)[j]
                        == all.take(k + 1)[j] by {
                        if j < k {
                            assert(levels@[j] == before[j]);
                            assert(level_views(before)[j] == all.take(k)[j]);
                        }
                    }
                }
            }
        }
        proof {
            let all = merkle_levels(target);
            let k = levels@.len() as int;
            lemma_levels_shape(digests(levels@.last()@));
            assert(all.skip(k - 1).len() == 1);
            assert(all.take(k) =~= all);
        }
        Ok(MerkleTree { levels })
    }

    /// The Merkle root. A built tree always has one; the `Empty` guard cannot
    /// fire.
    pub fn root_hash(&self) -> (r: Result<[u8; 32], MerkleError>)
        ensures
            r matches Ok(root) && root@ == self.root_spec(),
    {
        proof {
            use_type_invariant(self);
            lemma_levels_shape(self.leaves());
        }
        let depth = self.levels.len();
        if depth == 0 {
            return Err(MerkleError::Empty);
        }
        let top = &self.levels[depth - 1];
        assert(level_views(self.levels@).last() == digests(top@));
        if top.len() == 0 {
            return Err(MerkleError::Empty);
        }
        assert(digests(top@)[0] == top@[0]@);
        Ok(top[0])
    }

    /// The root hash in lower-case hexadecimal.
    pub fn root_hash_hex(&self) -> (r: Result<String, MerkleError>)
        ensures
            r matches Ok(text) && text@ == hex_lower(self.root_spec()),
    {
        match self.root_hash() {
            Ok(root) => Ok(hex_encode(root.as_slice())),
            Err(e) => Err(e),
        }
    }

    /// Builds the inclusion proof for the first transaction of `transactions`
    /// whose identifier is `tx_id`. The list is the one the tree was built
    /// from; it serves to find the leaf's position.
    ///
    /// Fails with `NotFound` when no transaction has the identifier (or the
    /// position found lies beyond the tree's leaves). Otherwise the proof is
    /// the one of that leaf, and it verifies against the tree's root.
    pub fn inclusion_proof(&self, transactions: &[Transaction], tx_id: [u8; 16]) -> (r: Result<
        MerkleProof,
        MerkleError,
    >)
        ensures
            (forall|j: int|
                0 <= j < transactions@.len() ==> (#[trigger] transactions.deep_view()[j]).id
                    != tx_id@) ==> (r matches Err(e) && e is NotFound),
            forall|i: int|
                is_first_with_id(transactions.deep_view(), tx_id@, i) ==> if i
                    < self.leaves().len() {
                    r matches Ok(p) && p@ == inclusion_proof_spec(self.leaves(), i)
                        && p@.verifies(self.root_spec())
                } else {
                    r matches Err(e) && e is NotFound
                },
    {
        proof {
            use_type_invariant(self);
        }
        let ghost txs = transactions.deep_view();
        let mut leaf_index: usize = 0;
        while leaf_index < transactions.len() && !id_eq(&transactions[leaf_index].id, &tx_id)
            invariant
                leaf_index <= transactions@.len(),
                txs == transactions.deep_view(),
                forall|j: int| 0 <= j < leaf_index ==> (#[trigger] txs[j]).id != tx_id@,
            decreases transactions@.len() - leaf_index,
        {
            leaf_index += 1;
        }
        if leaf_index >= transactions.len() {
            return Err(MerkleError::NotFound);
        }
        assert(is_first_with_id(txs, tx_id@, leaf_index as int));
        assert forall|i: int| is_first_with_id(txs, tx_id@, i) implies i == leaf_index by {
            if i < leaf_index {
                assert(txs[i].id != tx_id@);
            }
        }
        if self.levels.len() == 0 {
            return Err(MerkleError::Empty);
        }
        if leaf_index >= self.levels[0].len() {
            return Err(MerkleError::NotFound);
        }
        let ghost leaves = self.leaves();
        let ghost all = merkle_levels(leaves);
        let leaf_hash = self.levels[0][leaf_index];
        let mut path: Vec<ProofNode> = Vec::new();
        let mut index = leaf_index;
        let mut k: usize = 0;
        proof {
            assert(all.skip(0) =~= all);
            assert(path.deep_view() =~= Seq::<ProofNodeView>::empty());
            assert(path.deep_view() + inclusion_path(leaves, leaf_index as int)
                =~= inclusion_path(leaves, leaf_index as int));
        }
        while k < self.levels.len() - 1
            invariant
                k < self.levels@.len(),
                all == level_views(self.levels@),
                all == merkle_levels(leaves),
                index < self.levels@[k as int]@.len(),
                all.skip(k as int) == merkle_levels(digests(self.levels@[k as int]@)),
                path.deep_view() + inclusion_path(digests(self.levels@[k as int]@), index as int)
                    == inclusion_path(leaves, leaf_index as int),
            decreases self.levels@.len() - k,
        {
            let level = &self.levels[k];
            let ghost here = digests(level@);
            let node = if index % 2 == 0 {
                let hash = if index + 1 < level.len() {
                    level[index + 1]
                } else {
                    level[index]
                };
                ProofNode { hash, side: ProofSide::Right }
            } else {
                ProofNode { hash: level[index - 1], side: ProofSide::Left }
            };
            proof {
                lemma_levels_shape(here);
                assert(all.skip(k as int).len() > 1);
                assert(here.len() > 1);
                assert(node@ == sibling_step(here, index as int));
                lemma_step_reaches_parent(here, index as int);
                assert(all.skip(k + 1) =~= all.skip(k as int).skip(1));
                lemma_levels_shape(parent_level(here));
                assert(all[k + 1] == all.skip(k + 1)[0]);
                assert(digests(self.levels@[k + 1]@) == parent_level(here));
                let done = path.deep_view();
                let rest = inclusion_path(parent_level(here), index as int / 2);
                assert(inclusion_path(here, index as int) =~= seq![node@] + rest);
                assert(done.push(node@) + rest =~= done + (seq![node@] + rest));
            }
            let ghost done = path.deep_view();
            path.push(node);
            assert(path.deep_view() =~= done.push(node@));
            index = index / 2;
            k += 1;
        }
        proof {
            let top = digests(self.levels@[k as int]@);
            lemma_levels_shape(top);
            assert(all.skip(k as int).len() == 1);
            assert(inclusion_path(top, index as int) =~= Seq::<ProofNodeView>::empty());
            assert(path.deep_view() + Seq::<ProofNodeView>::empty() =~= path.deep_view());
            lemma_inclusion_verifies(leaves, leaf_index as int);
            assert(leaves[leaf_index as int] == leaf_hash@);
        }
        Ok(MerkleProof { leaf_hash, path })
    }
}

} // verus!
