//! The failures that the ledger reports.

use vstd::prelude::*;

verus! {

/// Why an operation of the ledger failed. Nothing is retried: every failure
/// is handed to the caller as one of these values.
#[derive(Clone, Copy, Debug, PartialEq, Eq, Structural)]
pub enum LedgerError {
    /// The store could not be opened or created, or what it held was not a
    /// ledger.
    StorageUnavailable,
    /// A record with this id is in the store already.
    DuplicateId,
    /// Imported data did not describe a sequence of transactions.
    MalformedPortableData,
}

} // verus!
