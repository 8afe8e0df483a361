//! Blocks and the append-only chain that forms the ledger.

pub mod block;
pub mod codec;
pub mod blockchain;
pub mod error;

pub use block::{Block, BlockView, MIN_VERIFICATIONS};
pub use blockchain::Blockchain;
pub use error::BlockchainError;
