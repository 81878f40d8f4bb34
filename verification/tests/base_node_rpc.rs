//! The base-node RPC service over a modeled chain state.

use wallet_core::builder::Transaction;
use wallet_core::builder::TransactionKernel;
use wallet_core::builder::KERNEL_FEATURES_EMPTY;
use wallet_core::errors::RpcStatus;
use wallet_core::rpc::BaseNodeWalletRpcService;
use wallet_core::rpc::BlockchainStateModel;
use wallet_core::rpc::DeletedPositionInfo;
use wallet_core::rpc::HeaderInfo;
use wallet_core::rpc::KernelInfo;
use wallet_core::rpc::MempoolModel;
use wallet_core::rpc::QueryDeletedRequest;
use wallet_core::rpc::StateMachineModel;
use wallet_core::rpc::TxLocation;
use wallet_core::rpc::TxStorageResponse;
use wallet_core::rpc::TxSubmissionRejectionReason;
use wallet_core::rpc::UtxoMinedInfo;
use wallet_core::output::ComSignature;
use wallet_core::output::OutputFeatures;
use wallet_core::output::UnblindedOutput;
use wallet_core::script::ExecutionStack;
use wallet_core::script::TariScript;

fn chain_state() -> BlockchainStateModel {
    BlockchainStateModel {
        height_of_longest_chain: 100,
        best_block: vec![0xbb; 32],
        kernels: vec![KernelInfo { excess_sig: vec![1u8; 32], block_hash: vec![0xaa; 32] }],
        headers: vec![
            HeaderInfo { height: 90, hash: vec![0xaa; 32] },
            HeaderInfo { height: 100, hash: vec![0xbb; 32] },
        ],
        utxos: Vec::new(),
        deleted: vec![DeletedPositionInfo { position: 4, height: 95, block_hash: vec![0xaa; 32] }],
    }
}

fn service() -> BaseNodeWalletRpcService {
    BaseNodeWalletRpcService::new(
        chain_state(),
        MempoolModel { entries: Vec::new() },
        StateMachineModel { synced_listening: true },
    )
}

fn tx_with_sig(sig: Vec<u8>) -> Transaction {
    Transaction {
        inputs: Vec::new(),
        outputs: Vec::new(),
        kernels: vec![TransactionKernel {
            features: KERNEL_FEATURES_EMPTY,
            fee: 10,
            lock_height: 0,
            excess_sig: sig,
        }],
        offset: vec![0u8; 32],
    }
}

#[test]
fn mined_transactions_report_confirmations() {
    let svc = service();
    let r = svc.transaction_query(&vec![1u8; 32]);
    assert_eq!(r.location, TxLocation::Mined);
    assert_eq!(r.confirmations, 10);
    assert_eq!(r.block_hash, Some(vec![0xaa; 32]));
    assert!(r.is_synced);
    assert_eq!(r.height_of_longest_chain, 100);
}

#[test]
fn unknown_transactions_are_not_stored() {
    let svc = service();
    let r = svc.transaction_query(&vec![2u8; 32]);
    assert_eq!(r.location, TxLocation::NotStored);
    assert_eq!(r.confirmations, 0);
    assert_eq!(r.block_hash, None);
}

#[test]
fn mempool_verdicts_surface_in_queries() {
    let mut svc = service();
    svc.mempool.entries.push((vec![3u8; 32], TxStorageResponse::UnconfirmedPool));
    let r = svc.transaction_query(&vec![3u8; 32]);
    assert_eq!(r.location, TxLocation::InMempool);
}

#[test]
fn batch_queries_carry_the_mined_height() {
    let svc = service();
    let r = svc.transaction_batch_query(&vec![vec![1u8; 32], vec![2u8; 32]]);
    assert_eq!(r.responses.len(), 2);
    assert_eq!(r.responses[0].location, TxLocation::Mined);
    // block_height = tip - confirmations = 100 - 10
    assert_eq!(r.responses[0].block_height, 90);
    assert_eq!(r.responses[1].location, TxLocation::NotStored);
    assert_eq!(r.responses[1].block_height, 100);
    assert_eq!(r.tip_hash, vec![0xbb; 32]);
}

#[test]
fn submission_maps_every_mempool_verdict() {
    // Fresh signatures are accepted into the unconfirmed pool.
    let mut svc = service();
    let r = svc.submit_transaction(&tx_with_sig(vec![9u8; 32]));
    assert!(r.accepted);
    assert_eq!(r.rejection_reason, TxSubmissionRejectionReason::NotRejected);

    // Stored refusals map one-for-one.
    let cases = [
        (TxStorageResponse::NotStoredOrphan, TxSubmissionRejectionReason::Orphan),
        (TxStorageResponse::NotStoredTimeLocked, TxSubmissionRejectionReason::TimeLocked),
        (TxStorageResponse::NotStored, TxSubmissionRejectionReason::ValidationFailed),
    ];
    for (i, (verdict, expected)) in cases.iter().enumerate() {
        let mut svc = service();
        let sig = vec![10 + i as u8; 32];
        svc.mempool.entries.push((sig.clone(), *verdict));
        let r = svc.submit_transaction(&tx_with_sig(sig));
        assert!(!r.accepted);
        assert_eq!(r.rejection_reason, *expected);
    }

    // A spent-input refusal whose kernel is already on chain: already mined.
    let mut svc = service();
    svc.mempool.entries.push((vec![1u8; 32], TxStorageResponse::NotStoredAlreadySpent));
    let r = svc.submit_transaction(&tx_with_sig(vec![1u8; 32]));
    assert_eq!(r.rejection_reason, TxSubmissionRejectionReason::AlreadyMined);

    // The same refusal with no mined kernel: a double spend.
    let mut svc = service();
    svc.mempool.entries.push((vec![8u8; 32], TxStorageResponse::NotStoredAlreadySpent));
    let r = svc.submit_transaction(&tx_with_sig(vec![8u8; 32]));
    assert_eq!(r.rejection_reason, TxSubmissionRejectionReason::DoubleSpend);
}

#[test]
fn out_of_sync_nodes_say_so() {
    let mut svc = BaseNodeWalletRpcService::new(
        chain_state(),
        MempoolModel { entries: Vec::new() },
        StateMachineModel { synced_listening: false },
    );
    assert!(!svc.get_tip_info().is_synced);
    assert!(!svc.transaction_query(&vec![1u8; 32]).is_synced);
    assert!(!svc.submit_transaction(&tx_with_sig(vec![9u8; 32])).is_synced);
}

#[test]
fn headers_resolve_by_height_on_both_entry_points() {
    let svc = service();
    let h = svc.get_header(90).unwrap();
    assert_eq!(h.hash, vec![0xaa; 32]);
    let h2 = svc.get_header_by_height(90).unwrap();
    assert_eq!(h2.hash, h.hash);
    match svc.get_header(91) {
        Err(RpcStatus::NotFound(_)) => {},
        Ok(_) => panic!("expected not-found, got a header"),
        Err(_) => panic!("expected not-found, got another status"),
    }
}

#[test]
fn deleted_positions_partition_in_query_order() {
    let svc = service();
    let r = svc
        .query_deleted(&QueryDeletedRequest {
            mmr_positions: vec![3, 4, 5],
            include_deleted_block_data: true,
            chain_must_include_header: None,
        })
        .unwrap();
    assert_eq!(r.deleted_positions, vec![4]);
    assert_eq!(r.not_deleted_positions, vec![3, 5]);
    assert_eq!(r.heights_deleted_at, vec![95]);
    assert_eq!(r.blocks_deleted_in, vec![vec![0xaa; 32]]);
    assert_eq!(r.height_of_longest_chain, 100);
}

#[test]
fn oversized_positions_are_refused() {
    let svc = service();
    let r = svc.query_deleted(&QueryDeletedRequest {
        mmr_positions: vec![3, (u32::MAX as u64) + 1],
        include_deleted_block_data: false,
        chain_must_include_header: None,
    });
    match r {
        Err(RpcStatus::BadRequest(_)) => {},
        Ok(_) => panic!("expected bad-request, got a reply"),
        Err(_) => panic!("expected bad-request, got another status"),
    }
}

#[test]
fn required_headers_must_be_on_chain() {
    let svc = service();
    let r = svc.query_deleted(&QueryDeletedRequest {
        mmr_positions: vec![3],
        include_deleted_block_data: false,
        chain_must_include_header: Some(vec![0xcc; 32]),
    });
    match r {
        Err(RpcStatus::NotFound(_)) => {},
        Ok(_) => panic!("expected not-found, got a reply"),
        Err(_) => panic!("expected not-found, got another status"),
    }
}

#[test]
fn matching_utxos_filter_spent_and_pruned() {
    let mk_uo = |value: u64, seed: u8| {
        UnblindedOutput::new(
            value,
            vec![seed; 32],
            OutputFeatures { flags: 0, maturity: 0 },
            TariScript::nop(),
            ExecutionStack::from_bytes(vec![]),
            vec![seed; 32],
            vec![0u8; 32],
            ComSignature { bytes: vec![] },
        )
    };
    let mut state = chain_state();
    for (i, (spent, pruned)) in [(false, false), (true, false), (false, true)].iter().enumerate() {
        let uo = mk_uo(100 + i as u64, i as u8 + 1);
        state.utxos.push(UtxoMinedInfo {
            output: uo.to_transaction_output(&vec![1u8; 32], &vec![2u8; 32]),
            hash: vec![i as u8 + 1; 32],
            mmr_position: i as u64,
            mined_height: 50,
            header_hash: vec![0xaa; 32],
            spent: *spent,
            pruned: *pruned,
        });
    }
    let svc = BaseNodeWalletRpcService::new(
        state,
        MempoolModel { entries: Vec::new() },
        StateMachineModel { synced_listening: true },
    );
    let r = svc.fetch_matching_utxos(&vec![vec![1u8; 32], vec![2u8; 32], vec![3u8; 32], vec![4u8; 32]]);
    // Only the unspent, unpruned output comes back.
    assert_eq!(r.outputs.len(), 1);

    // The full query reports all found records, withholding pruned bodies.
    let q = svc.utxo_query(&vec![vec![1u8; 32], vec![3u8; 32], vec![4u8; 32]]);
    assert_eq!(q.responses.len(), 2);
    assert!(q.responses[0].output.is_some());
    assert!(q.responses[1].output.is_none());
    assert_eq!(q.responses[0].mined_height, 50);
}
