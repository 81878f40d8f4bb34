//! Event fan-out, validation codes and terminal outcomes.

use wallet_core::events::CallbackAction;
use wallet_core::events::CallbackValidationResults;
use wallet_core::events::CompletedTransaction;
use wallet_core::events::DhtEvent;
use wallet_core::events::OutputManagerEvent;
use wallet_core::events::TransactionEvent;
use wallet_core::events::dispatch_dht_event;
use wallet_core::events::dispatch_output_manager_event;
use wallet_core::events::dispatch_transaction_event;
use wallet_core::events::select_cancelled_transaction;
use wallet_core::validation::TxoValidationTask;
use wallet_core::validation::classify_output;
use wallet_core::validation::run_txo_validation;
use wallet_core::validation::terminal_event;
use wallet_core::output::ComSignature;
use wallet_core::output::DbUnblindedOutput;
use wallet_core::output::OutputFeatures;
use wallet_core::output::UnblindedOutput;
use wallet_core::rpc::BaseNodeWalletRpcService;
use wallet_core::rpc::BlockchainStateModel;
use wallet_core::rpc::DeletedPositionInfo;
use wallet_core::rpc::MempoolModel;
use wallet_core::rpc::StateMachineModel;
use wallet_core::rpc::UtxoMinedInfo;
use wallet_core::script::ExecutionStack;
use wallet_core::script::TariScript;
use wallet_core::storage::OutputManagerDatabase;
use wallet_core::storage::OutputStatus;

#[test]
fn validation_codes_map_bijectively() {
    assert_eq!(CallbackValidationResults::Success.code(), 0);
    assert_eq!(CallbackValidationResults::Aborted.code(), 1);
    assert_eq!(CallbackValidationResults::Failure.code(), 2);
    assert_eq!(CallbackValidationResults::BaseNodeNotInSync.code(), 3);
}

#[test]
fn terminal_outcomes_reach_observers_with_stable_codes() {
    // A base node that is not in sync delays the run: external code three.
    let ev = terminal_event(9, false, false, false);
    assert_eq!(
        dispatch_output_manager_event(&ev),
        Some(CallbackAction::TxoValidationComplete(9, 3))
    );
    // An exhausted retry budget fails it: code two.
    let ev = terminal_event(9, false, true, true);
    assert_eq!(
        dispatch_output_manager_event(&ev),
        Some(CallbackAction::TxoValidationComplete(9, 2))
    );
    // An aborted run: code one.
    let ev = terminal_event(9, true, false, true);
    assert_eq!(
        dispatch_output_manager_event(&ev),
        Some(CallbackAction::TxoValidationComplete(9, 1))
    );
    // The normal path: code zero.
    let ev = terminal_event(9, false, true, false);
    assert_eq!(
        dispatch_output_manager_event(&ev),
        Some(CallbackAction::TxoValidationComplete(9, 0))
    );
}

#[test]
fn retry_budget_is_bounded() {
    let mut task = TxoValidationTask::new(5, 2);
    assert_eq!(task.id, 5);
    assert!(task.record_attempt());
    assert!(!task.record_attempt());
    assert!(!task.record_attempt());
}

#[test]
fn chain_results_classify_outputs() {
    assert_eq!(classify_output(true, false, 10, 5), Some(OutputStatus::Unspent));
    assert_eq!(classify_output(true, true, 10, 5), Some(OutputStatus::Spent));
    assert_eq!(classify_output(false, false, 10, 5), Some(OutputStatus::Invalid));
    // The chain has not yet reached the expected height: no decision.
    assert_eq!(classify_output(false, false, 4, 5), None);
}

#[test]
fn test_callback_handler() {
    // Every mapped transaction event reaches its callback with its payload.
    assert_eq!(
        dispatch_transaction_event(&TransactionEvent::ReceivedTransaction(1)),
        Some(CallbackAction::ReceivedTransaction(1))
    );
    assert_eq!(
        dispatch_transaction_event(&TransactionEvent::ReceivedTransactionReply(2)),
        Some(CallbackAction::ReceivedTransactionReply(2))
    );
    assert_eq!(
        dispatch_transaction_event(&TransactionEvent::ReceivedFinalizedTransaction(2)),
        Some(CallbackAction::ReceivedFinalizedTransaction(2))
    );
    assert_eq!(
        dispatch_transaction_event(&TransactionEvent::TransactionBroadcast(2)),
        Some(CallbackAction::TransactionBroadcast(2))
    );
    assert_eq!(
        dispatch_transaction_event(&TransactionEvent::TransactionMined(2, true)),
        Some(CallbackAction::TransactionMined(2))
    );
    assert_eq!(
        dispatch_transaction_event(&TransactionEvent::TransactionMinedUnconfirmed(2, 22, true)),
        Some(CallbackAction::TransactionMinedUnconfirmed(2, 22))
    );
    assert_eq!(
        dispatch_transaction_event(&TransactionEvent::TransactionDirectSendResult(2, true)),
        Some(CallbackAction::DirectSendResult(2, true))
    );
    assert_eq!(
        dispatch_transaction_event(&TransactionEvent::TransactionStoreForwardSendResult(2, false)),
        Some(CallbackAction::StoreAndForwardSendResult(2, false))
    );
    assert_eq!(
        dispatch_transaction_event(&TransactionEvent::TransactionCancelled(3)),
        Some(CallbackAction::TransactionCancellation(3))
    );
    assert_eq!(dispatch_transaction_event(&TransactionEvent::Other), None);

    // The four transaction validation outcomes sum to the full code range.
    let mut tx_code_sum: u32 = 0;
    for ev in [
        TransactionEvent::TransactionValidationSuccess(7),
        TransactionEvent::TransactionValidationAborted(7),
        TransactionEvent::TransactionValidationFailure(7),
        TransactionEvent::TransactionValidationDelayed(7),
    ] {
        match dispatch_transaction_event(&ev) {
            Some(CallbackAction::TransactionValidationComplete(7, code)) => {
                tx_code_sum += code as u32;
            },
            other => panic!("wrong action: {:?}", other),
        }
    }
    assert_eq!(tx_code_sum, 6);

    // And likewise for the four output validation outcomes.
    let mut txo_code_sum: u32 = 0;
    for ev in [
        OutputManagerEvent::TxoValidationSuccess(8),
        OutputManagerEvent::TxoValidationAborted(8),
        OutputManagerEvent::TxoValidationFailure(8),
        OutputManagerEvent::TxoValidationDelayed(8),
    ] {
        match dispatch_output_manager_event(&ev) {
            Some(CallbackAction::TxoValidationComplete(8, code)) => {
                txo_code_sum += code as u32;
            },
            other => panic!("wrong action: {:?}", other),
        }
    }
    assert_eq!(txo_code_sum, 6);

    assert_eq!(
        dispatch_dht_event(&DhtEvent::StoreAndForwardMessagesReceived),
        Some(CallbackAction::SafMessagesReceived)
    );
    assert_eq!(dispatch_dht_event(&DhtEvent::Other), None);
}

#[test]
fn cancellation_prefers_completed_then_patches_direction() {
    let comms = vec![9u8; 32];
    let mk = |tx_id: u64| CompletedTransaction {
        tx_id,
        source_public_key: vec![1u8; 32],
        destination_public_key: vec![2u8; 32],
        amount: 22,
    };
    // A completed record wins unchanged.
    let r = select_cancelled_transaction(Some(mk(4)), Some(mk(5)), Some(mk(3)), &comms).unwrap();
    assert_eq!(r.tx_id, 4);
    assert_eq!(r.source_public_key, vec![1u8; 32]);
    // A cancelled outbound record gets this wallet as the source.
    let r = select_cancelled_transaction(None, Some(mk(5)), Some(mk(3)), &comms).unwrap();
    assert_eq!(r.tx_id, 5);
    assert_eq!(r.source_public_key, comms);
    // A cancelled inbound record gets this wallet as the destination.
    let r = select_cancelled_transaction(None, None, Some(mk(3)), &comms).unwrap();
    assert_eq!(r.tx_id, 3);
    assert_eq!(r.destination_public_key, comms);
    // Nothing found: no callback.
    assert!(select_cancelled_transaction(None, None, None, &comms).is_none());
}

#[test]
fn a_validation_run_reconciles_outputs_and_reports() {
    let mk = |value: u64, seed: u8| {
        DbUnblindedOutput::from_unblinded_output(UnblindedOutput::new(
            value,
            vec![seed; 32],
            OutputFeatures { flags: 0, maturity: 0 },
            TariScript::nop(),
            ExecutionStack::from_bytes(vec![]),
            vec![seed; 32],
            vec![0u8; 32],
            ComSignature { bytes: vec![] },
        ))
    };
    let mut db = OutputManagerDatabase::new();
    let mined = mk(100, 1);
    let spent = mk(200, 2);
    let vanished = mk(300, 3);
    db.add_unspent_output(mined.clone()).unwrap();
    db.add_unspent_output(spent.clone()).unwrap();
    db.add_unspent_output(vanished.clone()).unwrap();

    // The node has mined the first two; the second's position is deleted.
    let as_chain = |o: &DbUnblindedOutput, pos: u64| UtxoMinedInfo {
        output: o.unblinded_output.to_transaction_output(&vec![1u8; 32], &vec![2u8; 32]),
        hash: o.hash.clone(),
        mmr_position: pos,
        mined_height: 50,
        header_hash: vec![0xaa; 32],
        spent: false,
        pruned: false,
    };
    let node = BaseNodeWalletRpcService::new(
        BlockchainStateModel {
            height_of_longest_chain: 100,
            best_block: vec![0xbb; 32],
            kernels: Vec::new(),
            headers: Vec::new(),
            utxos: vec![as_chain(&mined, 1), as_chain(&spent, 2)],
            deleted: vec![DeletedPositionInfo { position: 2, height: 60, block_hash: vec![0xaa; 32] }],
        },
        MempoolModel { entries: Vec::new() },
        StateMachineModel { synced_listening: true },
    );

    let task = TxoValidationTask::new(77, 2);
    let watched = vec![
        (mined.hash.clone(), mined.commitment.clone()),
        (spent.hash.clone(), spent.commitment.clone()),
        (vanished.hash.clone(), vanished.commitment.clone()),
    ];
    let ev = run_txo_validation(&task, &mut db, &node, &watched, 90);
    assert_eq!(ev, OutputManagerEvent::TxoValidationSuccess(77));
    assert_eq!(db.status_of_commitment(&mined.commitment), Some(OutputStatus::Unspent));
    assert_eq!(db.status_of_commitment(&spent.commitment), Some(OutputStatus::Spent));
    assert_eq!(db.status_of_commitment(&vanished.commitment), Some(OutputStatus::Invalid));

    // A node that is not in sync delays the run and code three reaches the
    // observers.
    let stale = BaseNodeWalletRpcService::new(
        BlockchainStateModel {
            height_of_longest_chain: 100,
            best_block: vec![0xbb; 32],
            kernels: Vec::new(),
            headers: Vec::new(),
            utxos: Vec::new(),
            deleted: Vec::new(),
        },
        MempoolModel { entries: Vec::new() },
        StateMachineModel { synced_listening: false },
    );
    let ev = run_txo_validation(&task, &mut db, &stale, &Vec::new(), 90);
    assert_eq!(ev, OutputManagerEvent::TxoValidationDelayed(77));
    assert_eq!(
        dispatch_output_manager_event(&ev),
        Some(CallbackAction::TxoValidationComplete(77, 3))
    );
}
