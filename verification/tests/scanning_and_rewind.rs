//! One-sided payment scanning and the rewindable range proof.

use wallet_core::crypto::hash_secret_key;
use wallet_core::crypto::public_key_of;
use wallet_core::crypto::shared_secret;
use wallet_core::output::ComSignature;
use wallet_core::output::OutputFeatures;
use wallet_core::output::TransactionOutput;
use wallet_core::output::UnblindedOutput;
use wallet_core::script::ExecutionStack;
use wallet_core::script::TariScript;
use wallet_core::service::OutputManagerService;
use wallet_core::service::OutputManagerServiceConfig;
use wallet_core::storage::KnownOneSidedPaymentScript;
use wallet_core::storage::OutputManagerDatabase;
use wallet_core::storage::OutputStatus;

fn fresh_service() -> OutputManagerService {
    OutputManagerService::new(
        OutputManagerServiceConfig { prevent_fee_gt_amount: false },
        OutputManagerDatabase::new(),
        vec![42u8; 32],
    )
}

/// Fabricates the on-chain form of a one-sided payment to the script locked
/// by `script_key`, as its sender would: the committed value is blinded by
/// the shared secret, and the proof's rewind keys are chained digests of it.
fn one_sided_output(value: u64, script_key: &[u8], sender_offset_secret: &[u8]) -> TransactionOutput {
    let sender_offset_public = public_key_of(sender_offset_secret);
    let spending_key = shared_secret(script_key, &sender_offset_public);
    let rewind_key = hash_secret_key(&spending_key);
    let blinding_key = hash_secret_key(&rewind_key);
    let uo = UnblindedOutput::new(
        value,
        spending_key,
        OutputFeatures { flags: 0, maturity: 0 },
        TariScript::nop(),
        ExecutionStack::from_bytes(vec![]),
        script_key.to_vec(),
        sender_offset_public,
        ComSignature { bytes: vec![] },
    );
    uo.to_transaction_output(&rewind_key, &blinding_key)
}

#[test]
fn one_sided_payment_scan_recovers_value_once() {
    let mut oms = fresh_service();
    let script_key = vec![7u8; 32];
    oms.add_known_script(KnownOneSidedPaymentScript {
        private_key: script_key.clone(),
        script: TariScript::nop(),
        input: ExecutionStack::from_bytes(vec![]),
    })
    .unwrap();

    let chain_output = one_sided_output(777, &script_key, &vec![9u8; 32]);
    let recovered = oms.scan_outputs_for_one_sided_payments(vec![chain_output.clone()]).unwrap();
    assert_eq!(recovered.len(), 1);
    assert_eq!(recovered[0].value, 777);

    // The recovered output is stored as spendable.
    let b = oms.get_balance(None);
    assert_eq!(b.available_balance, 777);

    // Scanning the same output again recovers nothing and changes nothing.
    let len_before = oms.db.records.len();
    let recovered = oms.scan_outputs_for_one_sided_payments(vec![chain_output]).unwrap();
    assert_eq!(recovered.len(), 0);
    assert_eq!(oms.db.records.len(), len_before);
    assert_eq!(oms.get_balance(None).available_balance, 777);
}

#[test]
fn scan_ignores_unknown_scripts() {
    let mut oms = fresh_service();
    // No script registered: nothing can be recovered.
    let chain_output = one_sided_output(777, &vec![7u8; 32], &vec![9u8; 32]);
    let recovered = oms.scan_outputs_for_one_sided_payments(vec![chain_output]).unwrap();
    assert_eq!(recovered.len(), 0);
    assert_eq!(oms.get_balance(None).available_balance, 0);
}

#[test]
fn rewind_round_trip_recovers_value_and_blinding() {
    let rewind_key = vec![1u8; 32];
    let blinding_key = vec![2u8; 32];
    let uo = UnblindedOutput::new(
        12345,
        vec![3u8; 32],
        OutputFeatures { flags: 0, maturity: 0 },
        TariScript::nop(),
        ExecutionStack::from_bytes(vec![]),
        vec![3u8; 32],
        vec![0u8; 32],
        ComSignature { bytes: vec![] },
    );
    let chain_output = uo.to_transaction_output(&rewind_key, &blinding_key);
    let rewound = chain_output.full_rewind_range_proof(&rewind_key, &blinding_key).unwrap();
    assert_eq!(rewound.committed_value, 12345);
    assert_eq!(rewound.blinding_factor, vec![3u8; 32]);

    // The wrong keys fail to rewind.
    assert!(chain_output.full_rewind_range_proof(&blinding_key, &rewind_key).is_none());
}

#[test]
fn wallet_rewind_recovery_claims_own_outputs() {
    let mut oms = fresh_service();
    let rd = oms.master_key_manager.rewind_data();
    let uo = UnblindedOutput::new(
        888,
        vec![5u8; 32],
        OutputFeatures { flags: 0, maturity: 0 },
        TariScript::nop(),
        ExecutionStack::from_bytes(vec![]),
        vec![5u8; 32],
        vec![0u8; 32],
        ComSignature { bytes: vec![] },
    );
    let chain_output = uo.to_transaction_output(&rd.rewind_key, &rd.blinding_key);
    let recovered = oms.scan_for_recoverable_outputs(vec![chain_output]).unwrap();
    assert_eq!(recovered.len(), 1);
    assert_eq!(recovered[0].value, 888);
    assert_eq!(oms.get_balance(None).available_balance, 888);

    // An output rewound with someone else's keys is not claimed.
    let foreign = uo.to_transaction_output(&vec![1u8; 32], &vec![2u8; 32]);
    let recovered = oms.scan_for_recoverable_outputs(vec![foreign]).unwrap();
    assert_eq!(recovered.len(), 0);
}

#[test]
fn commitments_bind_value_and_key() {
    // The commitment derives from the value and spending key alone; either
    // change yields a fresh commitment.
    let c1 = wallet_core::crypto::commitment_of(5, &vec![1u8; 32]);
    let c2 = wallet_core::crypto::commitment_of(6, &vec![1u8; 32]);
    let c3 = wallet_core::crypto::commitment_of(5, &vec![2u8; 32]);
    assert_eq!(c1.len(), 32);
    assert_ne!(c1, c2);
    assert_ne!(c1, c3);
    // The digest does not hand its input back.
    assert_ne!(c1, vec![1u8; 32]);
}
