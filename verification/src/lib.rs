//! Replicated ledger engine of a social-production network node: transactions,
//! Merkle commitments, blocks, the append-only chain, the sync policy and the
//! event-driven node core, together with the byte-level wire format.

pub mod ambient;
pub mod blockchain;
pub mod hashing;
pub mod merkle;
pub mod node;
pub mod sync;
pub mod transaction;
pub mod tui;
pub mod wire;
