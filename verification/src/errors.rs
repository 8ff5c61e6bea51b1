//! What can go wrong while an event is recorded.

use vstd::prelude::*;

verus! {

/// A failure of the store itself.
#[derive(Clone, Copy, Debug, PartialEq, Eq, Structural)]
pub enum StorageError {
    /// An identifier would have stood in two relation records.
    IdentifierConflict,
    /// A sum would have left the range of the stored amounts.
    AmountOutOfRange,
}

impl StorageError {
    /// The failure in words.
    pub open spec fn text(self) -> Seq<char> {
        match self {
            StorageError::IdentifierConflict => "identifier is already correlated"@,
            StorageError::AmountOutOfRange => "amount out of range"@,
        }
    }

    /// The failure in words.
    pub fn to_string(&self) -> (r: String)
        ensures
            r@ == self.text(),
    {
        match self {
            StorageError::IdentifierConflict => "identifier is already correlated".to_string(),
            StorageError::AmountOutOfRange => "amount out of range".to_string(),
        }
    }
}

/// Why the reconciliation engine did not record an event.
#[derive(Clone, Copy, Debug, PartialEq, Eq, Structural)]
pub enum ReconciliationError {
    /// A fact with the same natural key is already recorded.
    DuplicateKey,
    /// The store failed.
    StorageError(StorageError),
}

impl ReconciliationError {
    /// The failure in words.
    pub open spec fn text(self) -> Seq<char> {
        match self {
            ReconciliationError::DuplicateKey => "duplicate key"@,
            ReconciliationError::StorageError(e) => e.text(),
        }
    }

    /// The failure in words.
    pub fn to_string(&self) -> (r: String)
        ensures
            r@ == self.text(),
    {
        match self {
            ReconciliationError::DuplicateKey => "duplicate key".to_string(),
            ReconciliationError::StorageError(e) => e.to_string(),
        }
    }
}

/// Why a projector did not append to its ledger: the store's failure in words.
#[derive(Debug)]
pub struct ProjectionError {
    pub message: String,
}

} // verus!
