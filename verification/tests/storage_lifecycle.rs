//! The output store: pool lifecycle, balance, ordering and encryption.

use wallet_core::errors::OutputManagerStorageError;
use wallet_core::output::ComSignature;
use wallet_core::output::DbUnblindedOutput;
use wallet_core::output::OutputFeatures;
use wallet_core::output::UnblindedOutput;
use wallet_core::script::ExecutionStack;
use wallet_core::script::TariScript;
use wallet_core::storage::OutputManagerDatabase;
use wallet_core::storage::OutputStatus;

fn mk_output(value: u64, seed: u8) -> UnblindedOutput {
    mk_output_with_maturity(value, seed, 0)
}

fn mk_output_with_maturity(value: u64, seed: u8, maturity: u64) -> UnblindedOutput {
    UnblindedOutput::new(
        value,
        vec![seed; 32],
        OutputFeatures { flags: 0, maturity },
        TariScript::nop(),
        ExecutionStack::from_bytes(vec![seed]),
        vec![seed; 32],
        vec![0u8; 32],
        ComSignature { bytes: vec![] },
    )
}

fn mk_db_output(value: u64, seed: u8) -> DbUnblindedOutput {
    DbUnblindedOutput::from_unblinded_output(mk_output(value, seed))
}

#[test]
fn duplicate_commitments_are_refused() {
    let mut db = OutputManagerDatabase::new();
    assert!(db.add_unspent_output(mk_db_output(100, 1)).is_ok());
    assert_eq!(
        db.add_unspent_output(mk_db_output(100, 1)),
        Err(OutputManagerStorageError::DuplicateOutput)
    );
    // A different value yields a different commitment, so it is accepted.
    assert!(db.add_unspent_output(mk_db_output(101, 1)).is_ok());
}

#[test]
fn encumber_confirm_cancel_lifecycle() {
    let mut db = OutputManagerDatabase::new();
    let input = mk_db_output(1000, 1);
    db.add_unspent_output(input.clone()).unwrap();
    let change = mk_db_output(395, 2);

    db.encumber_outputs(7, &vec![input.clone()], &vec![change.clone()]).unwrap();
    let b = db.get_balance(None);
    assert_eq!(b.available_balance, 0);
    assert_eq!(b.pending_outgoing_balance, 1000 - 395);

    db.confirm_encumbered_outputs(7);
    let b = db.get_balance(None);
    assert_eq!(b.pending_incoming_balance, 395);
    assert_eq!(b.pending_outgoing_balance, 1000);

    // Cancelling returns the input to the spendable pool and stashes the
    // inbound change as cancelled.
    db.cancel_pending_transaction_outputs(7).unwrap();
    let b = db.get_balance(None);
    assert_eq!(b.available_balance, 1000);
    assert_eq!(b.pending_incoming_balance, 0);

    // The stashed inbound output can be reinstated.
    db.reinstate_cancelled_inbound_output(7).unwrap();
    let b = db.get_balance(None);
    assert_eq!(b.pending_incoming_balance, 395);
}

#[test]
fn encumber_is_atomic_on_missing_input() {
    let mut db = OutputManagerDatabase::new();
    db.add_unspent_output(mk_db_output(100, 1)).unwrap();
    let missing = mk_db_output(500, 9);
    let change = mk_db_output(50, 2);
    assert_eq!(
        db.encumber_outputs(3, &vec![missing], &vec![change]),
        Err(OutputManagerStorageError::ValueNotFound)
    );
    // Nothing moved.
    let b = db.get_balance(None);
    assert_eq!(b.available_balance, 100);
    assert_eq!(b.pending_outgoing_balance, 0);
}

#[test]
fn cancel_of_unknown_transaction_fails() {
    let mut db = OutputManagerDatabase::new();
    assert_eq!(
        db.cancel_pending_transaction_outputs(42),
        Err(OutputManagerStorageError::ValueNotFound)
    );
}

#[test]
fn unspent_outputs_come_back_sorted_by_value() {
    let mut db = OutputManagerDatabase::new();
    db.add_unspent_output(mk_db_output(300, 1)).unwrap();
    db.add_unspent_output(mk_db_output(100, 2)).unwrap();
    db.add_unspent_output(mk_db_output(200, 3)).unwrap();
    let sorted = db.fetch_sorted_unspent_outputs();
    let values: Vec<u64> = sorted.iter().map(|o| o.unblinded_output.value).collect();
    assert_eq!(values, vec![100, 200, 300]);
}

#[test]
fn startup_sweep_clears_short_term_encumbrances() {
    let mut db = OutputManagerDatabase::new();
    let input = mk_db_output(1000, 1);
    db.add_unspent_output(input.clone()).unwrap();
    let change = mk_db_output(400, 2);
    db.encumber_outputs(5, &vec![input], &vec![change]).unwrap();

    db.clear_short_term_encumberances();
    let b = db.get_balance(None);
    assert_eq!(b.available_balance, 1000);
    assert_eq!(b.pending_outgoing_balance, 0);
    assert_eq!(b.pending_incoming_balance, 0);
}

#[test]
fn balance_splits_by_maturity_at_the_tip() {
    let mut db = OutputManagerDatabase::new();
    db.add_unspent_output(DbUnblindedOutput::from_unblinded_output(mk_output_with_maturity(
        100, 1, 0,
    )))
    .unwrap();
    db.add_unspent_output(DbUnblindedOutput::from_unblinded_output(mk_output_with_maturity(
        200, 2, 50,
    )))
    .unwrap();
    let b = db.get_balance(Some(10));
    assert_eq!(b.available_balance, 100);
    assert_eq!(b.time_locked_balance, Some(200));
    let b = db.get_balance(None);
    assert_eq!(b.available_balance, 300);
    assert_eq!(b.time_locked_balance, None);
}

#[test]
fn remove_and_update_by_commitment() {
    let mut db = OutputManagerDatabase::new();
    let o = mk_db_output(100, 1);
    db.add_unspent_output(o.clone()).unwrap();
    assert_eq!(
        db.remove_output_by_commitment(&vec![0u8; 32]),
        Err(OutputManagerStorageError::ValueNotFound)
    );
    assert_eq!(db.status_of_commitment(&o.commitment), Some(OutputStatus::Unspent));
    db.remove_output_by_commitment(&o.commitment).unwrap();
    assert_eq!(db.status_of_commitment(&o.commitment), None);
    assert_eq!(db.fetch_sorted_unspent_outputs().len(), 0);
}

#[test]
fn fetch_utxos_resolves_hashes_in_query_order() {
    let mut db = OutputManagerDatabase::new();
    let a = mk_db_output(100, 1);
    let b = mk_db_output(200, 2);
    db.add_unspent_output(a.clone()).unwrap();
    db.add_unspent_output(b.clone()).unwrap();
    let found = db.fetch_utxos(&vec![b.hash.clone(), vec![0u8; 32], a.hash.clone()]);
    let values: Vec<u64> = found.iter().map(|o| o.unblinded_output.value).collect();
    assert_eq!(values, vec![200, 100]);
}

#[test]
fn encryption_is_applied_once() {
    let mut db = OutputManagerDatabase::new();
    assert!(db.apply_encryption(vec![1u8; 32]).is_ok());
    match db.apply_encryption(vec![2u8; 32]) {
        Err(OutputManagerStorageError::StorageError(_)) => {},
        other => panic!("expected a storage error, got {:?}", other),
    }
    db.remove_encryption();
    assert!(db.apply_encryption(vec![2u8; 32]).is_ok());
}

#[test]
fn known_scripts_are_registered_once() {
    let mut db = OutputManagerDatabase::new();
    let ks = wallet_core::storage::KnownOneSidedPaymentScript {
        private_key: vec![7u8; 32],
        script: TariScript::nop(),
        input: ExecutionStack::from_bytes(vec![]),
    };
    assert!(db.add_known_script(ks.clone()).is_ok());
    assert_eq!(db.add_known_script(ks), Err(OutputManagerStorageError::DuplicateOutput));
    assert_eq!(db.get_all_known_one_sided_payment_scripts().len(), 1);
}

#[test]
fn equal_values_order_by_commitment_bytes() {
    let mut db = OutputManagerDatabase::new();
    let a = mk_db_output(100, 1);
    let b = mk_db_output(100, 2);
    // Insert in both orders: the fetch order must not depend on store order.
    db.add_unspent_output(a.clone()).unwrap();
    db.add_unspent_output(b.clone()).unwrap();
    let first = db.fetch_sorted_unspent_outputs();

    let mut db2 = OutputManagerDatabase::new();
    db2.add_unspent_output(b.clone()).unwrap();
    db2.add_unspent_output(a.clone()).unwrap();
    let second = db2.fetch_sorted_unspent_outputs();

    let firsts: Vec<Vec<u8>> = first.iter().map(|o| o.commitment.clone()).collect();
    let seconds: Vec<Vec<u8>> = second.iter().map(|o| o.commitment.clone()).collect();
    assert_eq!(firsts, seconds);
    // And the tie-break is the lexicographic order of the commitment bytes.
    assert!(firsts[0] <= firsts[1]);
}
