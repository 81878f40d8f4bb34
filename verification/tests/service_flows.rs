//! End-to-end flows through the output manager service: sending, splitting,
//! coinbase handling, fee estimation and key issuance.

use wallet_core::builder::SingleRoundSenderData;
use wallet_core::builder::TransactionSenderMessage;
use wallet_core::errors::OutputManagerError;
use wallet_core::output::ComSignature;
use wallet_core::output::DbUnblindedOutput;
use wallet_core::output::OutputFeatures;
use wallet_core::output::UnblindedOutput;
use wallet_core::script::ExecutionStack;
use wallet_core::script::TariScript;
use wallet_core::service::OutputManagerRequest;
use wallet_core::service::OutputManagerResponse;
use wallet_core::service::OutputManagerService;
use wallet_core::service::OutputManagerServiceConfig;
use wallet_core::storage::OutputManagerDatabase;
use wallet_core::storage::OutputStatus;

fn mk_output(value: u64, seed: u8) -> UnblindedOutput {
    UnblindedOutput::new(
        value,
        vec![seed; 32],
        OutputFeatures { flags: 0, maturity: 0 },
        TariScript::nop(),
        ExecutionStack::from_bytes(vec![seed]),
        vec![seed; 32],
        vec![0u8; 32],
        ComSignature { bytes: vec![] },
    )
}

fn fresh_service() -> OutputManagerService {
    OutputManagerService::new(
        OutputManagerServiceConfig { prevent_fee_gt_amount: false },
        OutputManagerDatabase::new(),
        vec![42u8; 32],
    )
}

#[test]
fn fresh_wallet_sends_partial_amount() {
    let mut oms = fresh_service();
    oms.handle_base_node_service_event(Some(100));
    oms.add_output(None, mk_output(1000, 1)).unwrap();

    let stp = oms
        .prepare_transaction_to_send(1, 400, 5, None, "test".to_string(), TariScript::nop())
        .unwrap();
    assert_eq!(stp.get_tx_id(), 1);
    assert_eq!(stp.amount, 400);
    assert_eq!(stp.fee_per_gram, 5);
    // fee with change: 5 * (10 + 5 + 2 * 12) = 195
    assert_eq!(stp.get_fee_amount(), 195);
    assert_eq!(stp.inputs.len(), 1);
    assert_eq!(stp.inputs[0].unblinded_output.value, 1000);
    let change = stp.get_change_unblinded_output().expect("change owed");
    assert_eq!(change.value, 1000 - 400 - 195);

    // The input is encumbered and the change held short-term, atomically.
    let b = oms.get_balance(Some(100));
    assert_eq!(b.available_balance, 0);
    assert_eq!(b.pending_outgoing_balance, 1000 - 405);
}

#[test]
fn insufficient_funds_with_pending_incoming() {
    let mut oms = fresh_service();
    oms.add_output(None, mk_output(100, 1)).unwrap();
    let pending = DbUnblindedOutput::from_unblinded_output(mk_output(500, 2));
    oms.db.add_output_to_be_received(9, pending, None).unwrap();

    let r = oms.prepare_transaction_to_send(2, 400, 5, None, String::new(), TariScript::nop());
    assert_eq!(r.err(), Some(OutputManagerError::FundsPending));
}

#[test]
fn not_enough_funds_without_pending_incoming() {
    let mut oms = fresh_service();
    oms.add_output(None, mk_output(100, 1)).unwrap();
    let r = oms.prepare_transaction_to_send(2, 400, 5, None, String::new(), TariScript::nop());
    assert_eq!(r.err(), Some(OutputManagerError::NotEnoughFunds));
}

#[test]
fn coin_split_makes_equal_outputs_plus_change() {
    let mut oms = fresh_service();
    oms.add_output(None, mk_output(10000, 1)).unwrap();

    let (tx_id, tx, fee, total) = oms.create_coin_split(1000, 5, 1, None).unwrap();
    // fee with change: 1 * (10 + 5 + 6 * 12) = 87
    assert_eq!(fee, 87);
    assert_eq!(total, 10000);
    assert_eq!(tx.outputs.len(), 6);
    assert_eq!(tx.inputs.len(), 1);
    assert_eq!(tx.kernels.len(), 1);
    assert_eq!(tx.kernels[0].fee, 87);

    // Six scheduled inbound outputs: five splits and the change.
    let b = oms.get_balance(None);
    assert_eq!(b.pending_incoming_balance, 5 * 1000 + (10000 - 5000 - 87));
    assert_eq!(b.pending_outgoing_balance, 10000);
    let _ = tx_id;
}

#[test]
fn coinbase_requests_at_same_height_replace_each_other() {
    let mut oms = fresh_service();
    let tx1 = oms.get_coinbase_transaction(10, 5000, 0, 42).unwrap();
    let tx2 = oms.get_coinbase_transaction(11, 5000, 0, 42).unwrap();
    assert_eq!(tx1.outputs.len(), 1);
    assert_eq!(tx2.kernels[0].lock_height, 42);

    // Exactly one pending coinbase at the height, tied to the second call.
    let mut pending: u32 = 0;
    let mut tx_ids = Vec::new();
    for rec in &oms.db.records {
        if rec.status == OutputStatus::PendingCoinbase(42) {
            pending += 1;
            tx_ids.push(rec.tx_id);
        }
    }
    assert_eq!(pending, 1);
    assert_eq!(tx_ids, vec![Some(11)]);

    let b = oms.get_balance(None);
    assert_eq!(b.pending_incoming_balance, 5000);
}

#[test]
fn coinbase_maturity_and_features() {
    let mut oms = fresh_service();
    let tx = oms.get_coinbase_transaction(10, 5000, 25, 42).unwrap();
    assert_eq!(tx.outputs[0].features.flags, wallet_core::output::FLAG_COINBASE);
    assert_eq!(
        tx.outputs[0].features.maturity,
        42 + wallet_core::service::COINBASE_LOCK_HEIGHT
    );
    assert_eq!(tx.kernels[0].features, wallet_core::builder::KERNEL_FEATURES_COINBASE);
    let b = oms.get_balance(None);
    assert_eq!(b.pending_incoming_balance, 5025);
}

#[test]
fn pay_to_self_finalizes_in_process() {
    let mut oms = fresh_service();
    oms.add_output(None, mk_output(1000, 1)).unwrap();
    let (fee, tx) = oms.create_pay_to_self_transaction(4, 400, 5, None).unwrap();
    assert_eq!(fee, 195);
    assert_eq!(tx.outputs.len(), 2);
    assert_eq!(tx.kernels[0].fee, 195);
    let b = oms.get_balance(None);
    assert_eq!(b.pending_incoming_balance, 400 + (1000 - 400 - 195));
}

#[test]
fn fee_estimate_prices_the_selected_inputs() {
    let mut oms = fresh_service();
    oms.add_output(None, mk_output(1000, 1)).unwrap();
    // One input selected; 5 * (10 + 5 + 2 * 12) = 195 with one kernel and
    // two outputs priced.
    assert_eq!(oms.fee_estimate(100, 5, 1, 2).unwrap(), 195);
    // Below the floor: 1 * (10 + 5 + 12) = 27, lifted to 100.
    assert_eq!(oms.fee_estimate(100, 1, 1, 1).unwrap(), 100);
}

#[test]
fn recipient_flow_validates_script_and_message() {
    let mut oms = fresh_service();
    let r = oms.get_recipient_transaction(TransactionSenderMessage::NoMessage);
    assert_eq!(r.err(), Some(OutputManagerError::InvalidSenderMessage));

    let bad_script = SingleRoundSenderData {
        tx_id: 3,
        amount: 250,
        script: TariScript::from_bytes(vec![0x01]),
        features: OutputFeatures { flags: 0, maturity: 0 },
        sender_offset_public_key: vec![5u8; 32],
        public_commitment_nonce: vec![6u8; 32],
        message: String::new(),
    };
    let r = oms.get_recipient_transaction(TransactionSenderMessage::Single(bad_script));
    assert_eq!(r.err(), Some(OutputManagerError::InvalidScriptHash));

    let good = SingleRoundSenderData {
        tx_id: 3,
        amount: 250,
        script: TariScript::nop(),
        features: OutputFeatures { flags: 0, maturity: 0 },
        sender_offset_public_key: vec![5u8; 32],
        public_commitment_nonce: vec![6u8; 32],
        message: String::new(),
    };
    let rtp = oms.get_recipient_transaction(TransactionSenderMessage::Single(good)).unwrap();
    assert_eq!(rtp.tx_id, 3);
    assert_eq!(rtp.amount, 250);
    assert_eq!(rtp.output.value, 250);
    let b = oms.get_balance(None);
    assert_eq!(b.pending_incoming_balance, 250);
}

#[test]
fn validation_requires_a_base_node() {
    let mut oms = fresh_service();
    assert_eq!(oms.validate_outputs().err(), Some(OutputManagerError::NoBaseNodeKeysProvided));
    oms.set_base_node(true);
    assert!(oms.validate_outputs().is_ok());
}

#[test]
fn tip_changes_trigger_validation() {
    let mut oms = fresh_service();
    // First observation always triggers.
    assert!(oms.handle_base_node_service_event(Some(5)));
    // Unchanged height does not.
    assert!(!oms.handle_base_node_service_event(Some(5)));
    // A moved tip does.
    assert!(oms.handle_base_node_service_event(Some(6)));
    // Losing the metadata does not.
    assert!(!oms.handle_base_node_service_event(None));
}

#[test]
fn next_keys_are_never_repeated() {
    let mut oms = fresh_service();
    let (s1, c1) = oms.master_key_manager.get_next_spend_and_script_key();
    let (s2, c2) = oms.master_key_manager.get_next_spend_and_script_key();
    assert_ne!(s1, s2);
    assert_ne!(c1, c2);
    assert_ne!(s1, c1);
    // Coinbase keys are deterministic in the height.
    let (a1, b1) = oms.master_key_manager.get_coinbase_spend_and_script_key_for_height(7);
    let (a2, b2) = oms.master_key_manager.get_coinbase_spend_and_script_key_for_height(7);
    assert_eq!(a1, a2);
    assert_eq!(b1, b2);
}

#[test]
fn requests_dispatch_to_matching_replies() {
    let mut oms = fresh_service();
    match oms.handle_request(OutputManagerRequest::AddOutput(mk_output(500, 1))).unwrap() {
        OutputManagerResponse::OutputAdded => {},
        _ => panic!("wrong reply"),
    }
    match oms.handle_request(OutputManagerRequest::GetBalance).unwrap() {
        OutputManagerResponse::Balance(b) => assert_eq!(b.available_balance, 500),
        _ => panic!("wrong reply"),
    }
    match oms.handle_request(OutputManagerRequest::GetUnspentOutputs).unwrap() {
        OutputManagerResponse::UnspentOutputs(v) => assert_eq!(v.len(), 1),
        _ => panic!("wrong reply"),
    }
    match oms.handle_request(OutputManagerRequest::GetPublicRewindKeys).unwrap() {
        OutputManagerResponse::PublicRewindKeys(k) => {
            assert_eq!(k.rewind_public_key.len(), 32)
        },
        _ => panic!("wrong reply"),
    }
    match oms.handle_request(OutputManagerRequest::RemoveEncryption).unwrap() {
        OutputManagerResponse::EncryptionRemoved => {},
        _ => panic!("wrong reply"),
    }
}

#[test]
fn seed_words_name_eleven_bit_groups_deterministically() {
    let oms = fresh_service();
    let word_list: Vec<String> = (0..2048).map(|i| format!("word{:04}", i)).collect();
    let words = oms.master_key_manager.get_seed_words(&word_list);
    assert_eq!(words.len(), 24);
    for w in &words {
        assert!(word_list.contains(w));
    }
    // Serialization is a pure function of the master secret.
    let again = oms.master_key_manager.get_seed_words(&word_list);
    assert_eq!(words, again);
    // A different master secret names different words somewhere.
    let other = OutputManagerService::new(
        OutputManagerServiceConfig { prevent_fee_gt_amount: false },
        OutputManagerDatabase::new(),
        vec![43u8; 32],
    );
    let other_words = other.master_key_manager.get_seed_words(&word_list);
    assert_ne!(words, other_words);
    match fresh_service()
        .handle_request(OutputManagerRequest::GetSeedWords(word_list))
        .unwrap()
    {
        OutputManagerResponse::SeedWords(v) => assert_eq!(v, words),
        _ => panic!("wrong reply"),
    }
}

#[test]
fn coin_split_fails_when_fee_exceeds_the_total() {
    // An empty wallet with a zero split: selection finds nothing to scan,
    // but the fee of the would-be transaction still exceeds the total.
    let mut oms = fresh_service();
    let r = oms.create_coin_split(0, 0, 1, None);
    assert_eq!(r.err(), Some(OutputManagerError::NotEnoughFunds));
    assert_eq!(oms.db.records.len(), 0);

    // A zero fee rate keeps the edge representable: nothing is owed, so an
    // empty split succeeds with an empty transaction.
    let r = oms.create_coin_split(0, 0, 0, None);
    assert!(r.is_ok());
}
