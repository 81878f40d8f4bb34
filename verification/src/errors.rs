//! Error taxonomy of the wallet core.

use vstd::prelude::*;

verus! {

/// Failures surfaced by the output store.
#[derive(Clone, Debug, PartialEq, Eq)]
pub enum OutputManagerStorageError {
    /// An output with the same commitment already exists.
    DuplicateOutput,
    /// The requested row is absent.
    ValueNotFound,
    /// The supplied password does not match the stored cipher.
    IncorrectPassword,
    /// The store is encrypted but no password was supplied.
    NoPasswordError,
    /// The store violates one of its own invariants; fatal.
    InconsistentState,
    /// Any other backend failure, with its message.
    StorageError(String),
}

/// Failures surfaced by the output manager service.
#[derive(Clone, Debug, PartialEq, Eq)]
pub enum OutputManagerError {
    /// Spendable funds do not cover the amount plus fee.
    NotEnoughFunds,
    /// Spendable funds fall short, but pending incoming funds would cover it.
    FundsPending,
    /// A validation run was requested with no base node configured.
    NoBaseNodeKeysProvided,
    /// The counterparty's sender message was not a single-round message.
    InvalidSenderMessage,
    /// The counterparty proposed a script other than the one expected.
    InvalidScriptHash,
    /// The transaction builder rejected the build, with its message.
    BuildError(String),
    /// A storage failure bubbled up from the output store.
    OutputManagerStorageError(OutputManagerStorageError),
}

/// Failures surfaced by the wallet's own persistent store.
#[derive(Clone, Debug, PartialEq, Eq)]
pub enum WalletStorageError {
    /// The store is encrypted but no password was supplied.
    NoPasswordError,
    /// The supplied password does not match.
    IncorrectPassword,
    /// Any other storage failure, with its message.
    OtherError(String),
}

/// Status returned by the base-node RPC service to its callers.
#[derive(Clone, Debug, PartialEq, Eq)]
pub enum RpcStatus {
    /// The request was malformed; it is never retried.
    BadRequest(String),
    /// The requested item is legitimately absent.
    NotFound(String),
    /// An internal failure on the serving side, with its message.
    GeneralError(String),
}

impl OutputManagerError {
    /// Wraps a storage failure.
    pub fn from_storage(e: OutputManagerStorageError) -> (r: Self)
        ensures
            r == OutputManagerError::OutputManagerStorageError(e),
    {
        OutputManagerError::OutputManagerStorageError(e)
    }
}

} // verus!
