//! Verified core of a wallet backend: unspent-output bookkeeping, coin
//! selection, fee computation, transaction assembly, base-node query
//! classification and event fan-out, with machine-checked contracts.

pub mod builder;
pub mod crypto;
pub mod errors;
pub mod events;
pub mod exit_codes;
pub mod fee;
pub mod key_manager;
pub mod output;
pub mod rpc;
pub mod scanner;
pub mod script;
pub mod selection;
pub mod service;
pub mod storage;
pub mod validation;
