//! The sync policy: which blocks of a remote chain segment a node adopts.

pub mod error;
pub mod manager;
pub mod strategy;

pub use error::SyncError;
pub use manager::SyncManager;
pub use strategy::SyncStrategy;
