//! Stable process exit codes and their mapping from wallet failures.

use vstd::prelude::*;
use vstd::string::StringExecFns;
use crate::errors::WalletStorageError;

verus! {

/// Failure categories of the application, each with a stable exit code.
#[derive(Clone, Debug, PartialEq, Eq)]
pub enum ExitCodes {
    /// An error in the wallet configuration.
    ConfigError(String),
    /// An unknown error; details are in the logs.
    UnknownError(String),
    /// An interface error; details are in the logs.
    InterfaceError,
    /// The wallet failed, with its message.
    WalletError(String),
    /// The GRPC server could not be started.
    GrpcError(String),
    /// The command input was not accepted.
    InputError(String),
    /// The command itself was invalid.
    CommandError(String),
    /// An input/output error.
    IOError(String),
    /// Recovery failed.
    RecoveryError(String),
    /// An internal network error.
    NetworkError(String),
    /// A message could not be interpreted.
    ConversionError(String),
    /// The supplied password was incorrect.
    IncorrectPassword,
    /// The wallet is encrypted but no password was provided.
    NoPassword,
    /// The remote onion gateway is not reachable.
    TorOffline,
    /// The database is in an inconsistent state.
    DbInconsistentState(String),
}

/// The stable exit code of each failure category.
pub open spec fn spec_exit_code(e: ExitCodes) -> i32 {
    match e {
        ExitCodes::ConfigError(_) => 101,
        ExitCodes::UnknownError(_) => 102,
        ExitCodes::InterfaceError => 103,
        ExitCodes::WalletError(_) => 104,
        ExitCodes::GrpcError(_) => 105,
        ExitCodes::InputError(_) => 106,
        ExitCodes::CommandError(_) => 107,
        ExitCodes::IOError(_) => 108,
        ExitCodes::RecoveryError(_) => 109,
        ExitCodes::NetworkError(_) => 110,
        ExitCodes::ConversionError(_) => 111,
        ExitCodes::IncorrectPassword => 112,
        ExitCodes::NoPassword => 112,
        ExitCodes::TorOffline => 113,
        ExitCodes::DbInconsistentState(_) => 115,
    }
}

impl ExitCodes {
    /// The stable exit code of this failure category.
    pub fn as_i32(&self) -> (r: i32)
        ensures
            r == spec_exit_code(*self),
    {
        match self {
            ExitCodes::ConfigError(_) => 101,
            ExitCodes::UnknownError(_) => 102,
            ExitCodes::InterfaceError => 103,
            ExitCodes::WalletError(_) => 104,
            ExitCodes::GrpcError(_) => 105,
            ExitCodes::InputError(_) => 106,
            ExitCodes::CommandError(_) => 107,
            ExitCodes::IOError(_) => 108,
            ExitCodes::RecoveryError(_) => 109,
            ExitCodes::NetworkError(_) => 110,
            ExitCodes::ConversionError(_) => 111,
            ExitCodes::IncorrectPassword | ExitCodes::NoPassword => 112,
            ExitCodes::TorOffline => 113,
            ExitCodes::DbInconsistentState(_) => 115,
        }
    }

    /// A GRPC failure, prefixed with the standing connection-error text.
    pub fn grpc(err: String) -> (r: ExitCodes)
        ensures
            r matches ExitCodes::GrpcError(m) && m@ == "GRPC connection error: "@ + err@,
    {
        let msg = String::from_str("GRPC connection error: ").concat(err.as_str());
        ExitCodes::GrpcError(msg)
    }
}

impl From<WalletStorageError> for ExitCodes {
    /// Password failures map to their dedicated exit categories; everything
    /// else is a wallet error carrying the storage message.
    fn from(err: WalletStorageError) -> (r: Self) {
        match err {
            WalletStorageError::NoPasswordError => ExitCodes::NoPassword,
            WalletStorageError::IncorrectPassword => ExitCodes::IncorrectPassword,
            WalletStorageError::OtherError(m) => ExitCodes::WalletError(m),
        }
    }
}

impl vstd::std_specs::convert::FromSpecImpl<WalletStorageError> for ExitCodes {
    open spec fn obeys_from_spec() -> bool {
        true
    }

    open spec fn from_spec(err: WalletStorageError) -> Self {
        match err {
            WalletStorageError::NoPasswordError => ExitCodes::NoPassword,
            WalletStorageError::IncorrectPassword => ExitCodes::IncorrectPassword,
            WalletStorageError::OtherError(m) => ExitCodes::WalletError(m),
        }
    }
}

} // verus!
