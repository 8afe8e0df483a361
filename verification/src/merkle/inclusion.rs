//! Inclusion proofs: the sibling hashes on the way from a leaf to the root.

use crate::hashing::{digest_eq, sha256, sha256_digest};
use crate::wire::append_bytes;
use vstd::prelude::*;

verus! {

/// The hash of an inner node: SHA-256 of the left child followed by the right.
pub open spec fn hash_pair_spec(left: Seq<u8>, right: Seq<u8>) -> Seq<u8> {
    sha256(left + right)
}

/// Computes the hash of an inner node from its two children.
pub fn hash_pair(left: &[u8; 32], right: &[u8; 32]) -> (parent: [u8; 32])
    ensures
        parent@ == hash_pair_spec(left@, right@),
{
    let mut joined: Vec<u8> = Vec::new();
    append_bytes(&mut joined, left.as_slice());
    append_bytes(&mut joined, right.as_slice());
    assert(joined@ =~= left@ + right@);
    sha256_digest(joined.as_slice())
}

/// Which side of the current node the sibling hash sits on.
#[derive(Debug, Clone, Copy, PartialEq, Eq, Structural)]
pub enum ProofSide {
    Left,
    Right,
}

/// The mathematical content of a [`ProofNode`].
pub struct ProofNodeView {
    pub hash: Seq<u8>,
    pub side: ProofSide,
}

/// A single step of an inclusion proof.
#[derive(Debug, Clone, Copy, PartialEq, Eq)]
pub struct ProofNode {
    pub hash: [u8; 32],
    pub side: ProofSide,
}

impl View for ProofNode {
    type V = ProofNodeView;

    open spec fn view(&self) -> ProofNodeView {
        ProofNodeView { hash: self.hash@, side: self.side }
    }
}

impl DeepView for ProofNode {
    type V = ProofNodeView;

    open spec fn deep_view(&self) -> ProofNodeView {
        self@
    }
}

/// The hash one level up from `current`, given the sibling step.
pub open spec fn climb_one(current: Seq<u8>, node: ProofNodeView) -> Seq<u8> {
    match node.side {
        ProofSide::Left => hash_pair_spec(node.hash, current),
        ProofSide::Right => hash_pair_spec(current, node.hash),
    }
}

/// The hash reached from `current` by following every step of `path`.
pub open spec fn climb(current: Seq<u8>, path: Seq<ProofNodeView>) -> Seq<u8>
    decreases path.len(),
{
    if path.len() == 0 {
        current
    } else {
        climb(climb_one(current, path[0]), path.drop_first())
    }
}

/// Following `path` and then one more step is following the longer path.
pub proof fn lemma_climb_push(current: Seq<u8>, path: Seq<ProofNodeView>, node: ProofNodeView)
    ensures
        climb(current, path.push(node)) == climb_one(climb(current, path), node),
    decreases path.len(),
{
    let longer = path.push(node);
    if path.len() == 0 {
        assert(longer.drop_first() =~= path);
        assert(climb(climb_one(current, node), path) == climb_one(current, node));
    } else {
        assert(longer.drop_first() =~= path.drop_first().push(node));
        assert(longer[0] == path[0]);
        lemma_climb_push(climb_one(current, path[0]), path.drop_first(), node);
    }
}

/// The mathematical content of a [`MerkleProof`].
pub struct MerkleProofView {
    pub leaf_hash: Seq<u8>,
    pub path: Seq<ProofNodeView>,
}

impl MerkleProofView {
    /// The root that the proof leads to.
    pub open spec fn computed_root(self) -> Seq<u8> {
        climb(self.leaf_hash, self.path)
    }

    /// True iff following the path from the leaf ends at `expected_root`.
    pub open spec fn verifies(self, expected_root: Seq<u8>) -> bool {
        self.computed_root() == expected_root
    }
}

/// An inclusion proof for a single transaction leaf.
#[derive(Debug, PartialEq, Eq)]
pub struct MerkleProof {
    /// The hash of the leaf being proved.
    pub leaf_hash: [u8; 32],
    /// Sibling hashes from the leaf level up to just below the root.
    pub path: Vec<ProofNode>,
}

impl View for MerkleProof {
    type V = MerkleProofView;

    open spec fn view(&self) -> MerkleProofView {
        MerkleProofView { leaf_hash: self.leaf_hash@, path: self.path.deep_view() }
    }
}

impl Clone for MerkleProof {
    fn clone(&self) -> (copy: Self)
        ensures
            copy@ == self@,
    {
        let mut path: Vec<ProofNode> = Vec::new();
        let mut i: usize = 0;
        while i < self.path.len()
            invariant
                i <= self.path.len(),
                path@ =~= self.path@.take(i as int),
            decreases self.path.len() - i,
        {
            path.push(self.path[i]);
            i += 1;
        }
        assert(path@ =~= self.path@);
        assert(path.deep_view() =~= self.path.deep_view());
        MerkleProof { leaf_hash: self.leaf_hash, path }
    }
}

impl MerkleProof {
    /// Recomputes the hashes from the leaf upward and compares the result
    /// with `expected_root`.
    pub fn verify(&self, expected_root: &[u8; 32]) -> (ok: bool)
        ensures
            ok == self@.verifies(expected_root@),
    {
        let mut current = self.leaf_hash;
        let mut i: usize = 0;
        assert(self.path.deep_view().take(0) =~= Seq::<ProofNodeView>::empty());
        while i < self.path.len()
            invariant
                i <= self.path.len(),
                current@ == climb(self.leaf_hash@, self.path.deep_view().take(i as int)),
            decreases self.path.len() - i,
        {
            let node = &self.path[i];
            let next = match node.side {
                ProofSide::Left => hash_pair(&node.hash, &current),
                ProofSide::Right => hash_pair(&current, &node.hash),
            };
            proof {
                let done = self.path.deep_view().take(i as int);
                assert(self.path.deep_view().take(i + 1) =~= done.push(node@));
                lemma_climb_push(self.leaf_hash@, done, node@);
            }
            current = next;
            i += 1;
        }
        assert(self.path.deep_view().take(i as int) =~= self.path.deep_view());
        digest_eq(&current, expected_root)
    }
}

/// A proof is accepted for exactly one root: the one its path leads to.
pub proof fn lemma_verifies_one_root(p: MerkleProofView, root: Seq<u8>, other: Seq<u8>)
    requires
        p.verifies(root),
        other != root,
    ensures
        !p.verifies(other),
{
}

} // verus!
