//! Failures of transaction handling.

use vstd::prelude::*;
use vstd::string::*;

verus! {

/// What can go wrong when a transaction is hashed or checked.
#[derive(Debug)]
pub enum TransactionError {
    /// The canonical encoding could not be produced; carries the reason.
    Serialization(String),
    /// The signature did not match.
    InvalidSignature,
    /// The identifier is malformed.
    InvalidId,
}

impl TransactionError {
    /// The human-readable description of the failure.
    pub open spec fn message_spec(self) -> Seq<char> {
        match self {
            TransactionError::Serialization(reason) => "serialization error: "@ + reason@,
            TransactionError::InvalidSignature => "invalid signature"@,
            TransactionError::InvalidId => "invalid transaction id"@,
        }
    }

    /// Renders the failure for logs and for wrapping in other errors.
    pub fn message(&self) -> (text: String)
        ensures
            text@ == self.message_spec(),
    {
        match self {
            TransactionError::Serialization(reason) => {
                String::from_str("serialization error: ").concat(reason.as_str())
            },
            TransactionError::InvalidSignature => String::from_str("invalid signature"),
            TransactionError::InvalidId => String::from_str("invalid transaction id"),
        }
    }
}

} // verus!
