//! Event fan-out: translating service events into the observer callbacks
//! and the stable external result codes.

use vstd::prelude::*;
use crate::crypto::clone_bytes;

verus! {

/// The four terminal outcomes of a validation run, as surfaced to observers.
#[derive(Clone, Copy, Debug, PartialEq, Eq, Structural)]
pub enum CallbackValidationResults {
    /// The run completed and every output agreed with the chain.
    Success,
    /// The run was cancelled before finishing.
    Aborted,
    /// The run failed, for instance after exhausting its retries.
    Failure,
    /// The base node reported that it is not yet in sync.
    BaseNodeNotInSync,
}

/// The stable external code of each validation outcome.
pub open spec fn spec_validation_code(r: CallbackValidationResults) -> u8 {
    match r {
        CallbackValidationResults::Success => 0,
        CallbackValidationResults::Aborted => 1,
        CallbackValidationResults::Failure => 2,
        CallbackValidationResults::BaseNodeNotInSync => 3,
    }
}

impl CallbackValidationResults {
    /// The stable external code of this outcome.
    pub fn code(&self) -> (r: u8)
        ensures
            r == spec_validation_code(*self),
    {
        match self {
            CallbackValidationResults::Success => 0,
            CallbackValidationResults::Aborted => 1,
            CallbackValidationResults::Failure => 2,
            CallbackValidationResults::BaseNodeNotInSync => 3,
        }
    }
}

/// Validation code mapping is a bijection between the four internal
/// outcomes and the external codes zero to three: distinct outcomes get
/// distinct codes, every code is at most three, and every such code is hit.
pub proof fn lemma_validation_code_bijective()
    ensures
        forall|a: CallbackValidationResults, b: CallbackValidationResults|
            spec_validation_code(a) == spec_validation_code(b) ==> a == b,
        forall|a: CallbackValidationResults| spec_validation_code(a) <= 3,
        spec_validation_code(CallbackValidationResults::Success) == 0,
        spec_validation_code(CallbackValidationResults::Aborted) == 1,
        spec_validation_code(CallbackValidationResults::Failure) == 2,
        spec_validation_code(CallbackValidationResults::BaseNodeNotInSync) == 3,
{
}

/// An event published by the transaction service.
#[derive(Clone, Copy, Debug, PartialEq, Eq, Structural)]
pub enum TransactionEvent {
    /// An inbound transaction arrived.
    ReceivedTransaction(u64),
    /// A reply to a pending outbound transaction arrived.
    ReceivedTransactionReply(u64),
    /// The finalized form of an inbound transaction arrived.
    ReceivedFinalizedTransaction(u64),
    /// A direct send finished, with its success flag.
    TransactionDirectSendResult(u64, bool),
    /// A store-and-forward send finished, with its success flag.
    TransactionStoreForwardSendResult(u64, bool),
    /// A transaction was cancelled.
    TransactionCancelled(u64),
    /// A transaction was broadcast to a mempool.
    TransactionBroadcast(u64),
    /// A transaction was mined; the flag records whether it is still valid.
    TransactionMined(u64, bool),
    /// A mined transaction gathered confirmations: (tx, confirmations,
    /// validity).
    TransactionMinedUnconfirmed(u64, u64, bool),
    /// A transaction validation run succeeded.
    TransactionValidationSuccess(u64),
    /// A transaction validation run failed.
    TransactionValidationFailure(u64),
    /// A transaction validation run was aborted.
    TransactionValidationAborted(u64),
    /// A transaction validation run was delayed: the base node is not in
    /// sync.
    TransactionValidationDelayed(u64),
    /// Any event not surfaced through a callback.
    Other,
}

/// An event published by the output manager service.
#[derive(Clone, Copy, Debug, PartialEq, Eq, Structural)]
pub enum OutputManagerEvent {
    /// An output validation run succeeded.
    TxoValidationSuccess(u64),
    /// An output validation run failed.
    TxoValidationFailure(u64),
    /// An output validation run was aborted.
    TxoValidationAborted(u64),
    /// An output validation run was delayed: the base node is not in sync.
    TxoValidationDelayed(u64),
    /// Any event not surfaced through a callback.
    Other,
}

/// An event published by the message routing layer.
#[derive(Clone, Copy, Debug, PartialEq, Eq, Structural)]
pub enum DhtEvent {
    /// Store-and-forward messages arrived.
    StoreAndForwardMessagesReceived,
    /// Any event not surfaced through a callback.
    Other,
}

/// The callback an event translates into.
#[derive(Clone, Copy, Debug, PartialEq, Eq, Structural)]
pub enum CallbackAction {
    /// Call the received-transaction sink with the pending inbound record.
    ReceivedTransaction(u64),
    /// Call the received-reply sink with the completed record.
    ReceivedTransactionReply(u64),
    /// Call the received-finalized sink with the completed record.
    ReceivedFinalizedTransaction(u64),
    /// Call the direct-send-result sink.
    DirectSendResult(u64, bool),
    /// Call the store-and-forward-send-result sink.
    StoreAndForwardSendResult(u64, bool),
    /// Call the cancellation sink with the cancelled record.
    TransactionCancellation(u64),
    /// Call the broadcast sink with the completed record.
    TransactionBroadcast(u64),
    /// Call the mined sink with the completed record.
    TransactionMined(u64),
    /// Call the mined-unconfirmed sink with the record and confirmations.
    TransactionMinedUnconfirmed(u64, u64),
    /// Call the transaction-validation-complete sink with a stable code.
    TransactionValidationComplete(u64, u8),
    /// Call the output-validation-complete sink with a stable code.
    TxoValidationComplete(u64, u8),
    /// Call the store-and-forward-messages sink.
    SafMessagesReceived,
}

/// The callback, if any, a transaction-service event maps to.
pub open spec fn spec_dispatch_transaction_event(ev: TransactionEvent) -> Option<CallbackAction> {
    match ev {
        TransactionEvent::ReceivedTransaction(tx) => Some(CallbackAction::ReceivedTransaction(tx)),
        TransactionEvent::ReceivedTransactionReply(tx) => Some(
            CallbackAction::ReceivedTransactionReply(tx),
        ),
        TransactionEvent::ReceivedFinalizedTransaction(tx) => Some(
            CallbackAction::ReceivedFinalizedTransaction(tx),
        ),
        TransactionEvent::TransactionDirectSendResult(tx, ok) => Some(
            CallbackAction::DirectSendResult(tx, ok),
        ),
        TransactionEvent::TransactionStoreForwardSendResult(tx, ok) => Some(
            CallbackAction::StoreAndForwardSendResult(tx, ok),
        ),
        TransactionEvent::TransactionCancelled(tx) => Some(
            CallbackAction::TransactionCancellation(tx),
        ),
        TransactionEvent::TransactionBroadcast(tx) => Some(
            CallbackAction::TransactionBroadcast(tx),
        ),
        TransactionEvent::TransactionMined(tx, _) => Some(CallbackAction::TransactionMined(tx)),
        TransactionEvent::TransactionMinedUnconfirmed(tx, confirmations, _) => Some(
            CallbackAction::TransactionMinedUnconfirmed(tx, confirmations),
        ),
        TransactionEvent::TransactionValidationSuccess(key) => Some(
            CallbackAction::TransactionValidationComplete(
                key,
                spec_validation_code(CallbackValidationResults::Success),
            ),
        ),
        TransactionEvent::TransactionValidationFailure(key) => Some(
            CallbackAction::TransactionValidationComplete(
                key,
                spec_validation_code(CallbackValidationResults::Failure),
            ),
        ),
        TransactionEvent::TransactionValidationAborted(key) => Some(
            CallbackAction::TransactionValidationComplete(
                key,
                spec_validation_code(CallbackValidationResults::Aborted),
            ),
        ),
        TransactionEvent::TransactionValidationDelayed(key) => Some(
            CallbackAction::TransactionValidationComplete(
                key,
                spec_validation_code(CallbackValidationResults::BaseNodeNotInSync),
            ),
        ),
        TransactionEvent::Other => None,
    }
}

/// The callback, if any, an output-manager event maps to.
pub open spec fn spec_dispatch_output_manager_event(ev: OutputManagerEvent) -> Option<
    CallbackAction,
> {
    match ev {
        OutputManagerEvent::TxoValidationSuccess(key) => Some(
            CallbackAction::TxoValidationComplete(
                key,
                spec_validation_code(CallbackValidationResults::Success),
            ),
        ),
        OutputManagerEvent::TxoValidationFailure(key) => Some(
            CallbackAction::TxoValidationComplete(
                key,
                spec_validation_code(CallbackValidationResults::Failure),
            ),
        ),
        OutputManagerEvent::TxoValidationAborted(key) => Some(
            CallbackAction::TxoValidationComplete(
                key,
                spec_validation_code(CallbackValidationResults::Aborted),
            ),
        ),
        OutputManagerEvent::TxoValidationDelayed(key) => Some(
            CallbackAction::TxoValidationComplete(
                key,
                spec_validation_code(CallbackValidationResults::BaseNodeNotInSync),
            ),
        ),
        OutputManagerEvent::Other => None,
    }
}

/// Translates a transaction-service event into its callback.
pub fn dispatch_transaction_event(ev: &TransactionEvent) -> (r: Option<CallbackAction>)
    ensures
        r == spec_dispatch_transaction_event(*ev),
{
    match ev {
        TransactionEvent::ReceivedTransaction(tx) => Some(CallbackAction::ReceivedTransaction(*tx)),
        TransactionEvent::ReceivedTransactionReply(tx) => Some(
            CallbackAction::ReceivedTransactionReply(*tx),
        ),
        TransactionEvent::ReceivedFinalizedTransaction(tx) => Some(
            CallbackAction::ReceivedFinalizedTransaction(*tx),
        ),
        TransactionEvent::TransactionDirectSendResult(tx, ok) => Some(
            CallbackAction::DirectSendResult(*tx, *ok),
        ),
        TransactionEvent::TransactionStoreForwardSendResult(tx, ok) => Some(
            CallbackAction::StoreAndForwardSendResult(*tx, *ok),
        ),
        TransactionEvent::TransactionCancelled(tx) => Some(
            CallbackAction::TransactionCancellation(*tx),
        ),
        TransactionEvent::TransactionBroadcast(tx) => Some(
            CallbackAction::TransactionBroadcast(*tx),
        ),
        TransactionEvent::TransactionMined(tx, _) => Some(CallbackAction::TransactionMined(*tx)),
        TransactionEvent::TransactionMinedUnconfirmed(tx, confirmations, _) => Some(
            CallbackAction::TransactionMinedUnconfirmed(*tx, *confirmations),
        ),
        TransactionEvent::TransactionValidationSuccess(key) => Some(
            CallbackAction::TransactionValidationComplete(
                *key,
                CallbackValidationResults::Success.code(),
            ),
        ),
        TransactionEvent::TransactionValidationFailure(key) => Some(
            CallbackAction::TransactionValidationComplete(
                *key,
                CallbackValidationResults::Failure.code(),
            ),
        ),
        TransactionEvent::TransactionValidationAborted(key) => Some(
            CallbackAction::TransactionValidationComplete(
                *key,
                CallbackValidationResults::Aborted.code(),
            ),
        ),
        TransactionEvent::TransactionValidationDelayed(key) => Some(
            CallbackAction::TransactionValidationComplete(
                *key,
                CallbackValidationResults::BaseNodeNotInSync.code(),
            ),
        ),
        TransactionEvent::Other => None,
    }
}

/// Translates an output-manager event into its callback.
pub fn dispatch_output_manager_event(ev: &OutputManagerEvent) -> (r: Option<CallbackAction>)
    ensures
        r == spec_dispatch_output_manager_event(*ev),
{
    match ev {
        OutputManagerEvent::TxoValidationSuccess(key) => Some(
            CallbackAction::TxoValidationComplete(
                *key,
                CallbackValidationResults::Success.code(),
            ),
        ),
        OutputManagerEvent::TxoValidationFailure(key) => Some(
            CallbackAction::TxoValidationComplete(
                *key,
                CallbackValidationResults::Failure.code(),
            ),
        ),
        OutputManagerEvent::TxoValidationAborted(key) => Some(
            CallbackAction::TxoValidationComplete(
                *key,
                CallbackValidationResults::Aborted.code(),
            ),
        ),
        OutputManagerEvent::TxoValidationDelayed(key) => Some(
            CallbackAction::TxoValidationComplete(
                *key,
                CallbackValidationResults::BaseNodeNotInSync.code(),
            ),
        ),
        OutputManagerEvent::Other => None,
    }
}

/// Translates a routing-layer event into its callback.
pub fn dispatch_dht_event(ev: &DhtEvent) -> (r: Option<CallbackAction>)
    ensures
        *ev == DhtEvent::StoreAndForwardMessagesReceived <==> r == Some(
            CallbackAction::SafMessagesReceived,
        ),
        !(*ev == DhtEvent::StoreAndForwardMessagesReceived) <==> r is None,
    {
    match ev {
        DhtEvent::StoreAndForwardMessagesReceived => Some(CallbackAction::SafMessagesReceived),
        DhtEvent::Other => None,
    }
}

/// A completed transaction as the callback surface sees it.
pub struct CompletedTransaction {
    /// The wallet-scope identifier.
    pub tx_id: u64,
    /// The counterparty that funded the transaction.
    pub source_public_key: Vec<u8>,
    /// The counterparty that received the transaction.
    pub destination_public_key: Vec<u8>,
    /// The amount paid.
    pub amount: u64,
}

/// Mathematical model of a completed transaction.
pub struct CompletedTransactionV {
    /// The identifier.
    pub tx_id: u64,
    /// The source key bytes.
    pub source_public_key: Seq<u8>,
    /// The destination key bytes.
    pub destination_public_key: Seq<u8>,
    /// The amount.
    pub amount: u64,
}

impl View for CompletedTransaction {
    type V = CompletedTransactionV;

    open spec fn view(&self) -> CompletedTransactionV {
        CompletedTransactionV {
            tx_id: self.tx_id,
            source_public_key: self.source_public_key@,
            destination_public_key: self.destination_public_key@,
            amount: self.amount,
        }
    }
}

impl Clone for CompletedTransaction {
    fn clone(&self) -> (r: Self)
        ensures
            r@ == self@,
    {
        let r = CompletedTransaction {
            tx_id: self.tx_id,
            source_public_key: clone_bytes(&self.source_public_key),
            destination_public_key: clone_bytes(&self.destination_public_key),
            amount: self.amount,
        };
        proof {
            assert(r@ == self@);
        }
        r
    }
}

/// Picks the record handed to the cancellation callback: the completed
/// record when one exists; else the cancelled outbound record with this
/// wallet as the source; else the cancelled inbound record with this wallet
/// as the destination.
pub fn select_cancelled_transaction(
    completed: Option<CompletedTransaction>,
    outbound: Option<CompletedTransaction>,
    inbound: Option<CompletedTransaction>,
    comms_public_key: &Vec<u8>,
) -> (r: Option<CompletedTransaction>)
    ensures
        (completed matches Some(t) ==> (r matches Some(x) && x@ == t@)),
        (completed is None ==> (outbound matches Some(t) ==> (r matches Some(x) && x@
            == (CompletedTransactionV { source_public_key: comms_public_key@, ..t@ })))),
        (completed is None && outbound is None ==> (inbound matches Some(t) ==> (r matches Some(x)
            && x@ == (CompletedTransactionV {
            destination_public_key: comms_public_key@,
            ..t@
        })))),
        (completed is None && outbound is None && inbound is None ==> r is None),
{
    match completed {
        Some(t) => Some(t),
        None => match outbound {
            Some(mut t) => {
                t.source_public_key = clone_bytes(comms_public_key);
                Some(t)
            },
            None => match inbound {
                Some(mut t) => {
                    t.destination_public_key = clone_bytes(comms_public_key);
                    Some(t)
                },
                None => None,
            },
        },
    }
}

} // verus!
