//! Binary Merkle commitments over transaction lists, with inclusion proofs.

pub mod error;
pub mod inclusion;
pub mod tree;

pub use error::MerkleError;
pub use inclusion::{MerkleProof, ProofNode, ProofSide};
pub use tree::MerkleTree;
