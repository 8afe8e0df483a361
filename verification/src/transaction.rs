//! Transactions: immutable event records with a stable binary hash.

pub mod error;
pub mod transaction;
pub mod transaction_type;

pub use error::TransactionError;
pub use transaction::{Transaction, TransactionView};
pub use transaction_type::TransactionType;
