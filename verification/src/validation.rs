//! Output validation: reconciling the wallet's outputs against the chain
//! state a base node reports, and the terminal outcome of a run.

use vstd::prelude::*;
use crate::errors::OutputManagerStorageError;
use crate::events::OutputManagerEvent;
use crate::storage::contains_commitment;
use crate::storage::db_wf;
use crate::storage::OutputManagerDatabase;
use crate::storage::OutputStatus;
use crate::storage::spec_mark_record;

verus! {

/// One validation run: its identifier and retry budget.
pub struct TxoValidationTask {
    /// The run's identifier, quoted in its terminal event.
    pub id: u64,
    /// How many attempts the run may make against the base node.
    pub retry_limit: u64,
    /// How many attempts have been made.
    pub attempts: u64,
}

impl TxoValidationTask {
    /// A fresh run with the given identifier and retry budget.
    pub fn new(id: u64, retry_limit: u64) -> (r: Self)
        ensures
            r.id == id,
            r.retry_limit == retry_limit,
            r.attempts == 0,
    {
        TxoValidationTask { id, retry_limit, attempts: 0 }
    }

    /// Records one failed attempt and says whether the budget allows
    /// another.
    pub fn record_attempt(&mut self) -> (r: bool)
        requires
            old(self).attempts < u64::MAX,
        ensures
            final(self).id == old(self).id,
            final(self).retry_limit == old(self).retry_limit,
            final(self).attempts == old(self).attempts + 1,
            r == (final(self).attempts < final(self).retry_limit),
    {
        self.attempts = self.attempts + 1;
        self.attempts < self.retry_limit
    }
}

/// The pool an output moves to, given what the chain reports of it: present
/// and undeleted outputs are spendable; present but deleted outputs are
/// spent; outputs absent at a tip past their expected inclusion height are
/// disproved; anything else is left untouched.
pub open spec fn spec_classify_output(
    found_on_chain: bool,
    deleted: bool,
    tip_height: u64,
    expected_height: u64,
) -> Option<OutputStatus> {
    if found_on_chain && !deleted {
        Some(OutputStatus::Unspent)
    } else if found_on_chain && deleted {
        Some(OutputStatus::Spent)
    } else if !found_on_chain && tip_height >= expected_height {
        Some(OutputStatus::Invalid)
    } else {
        None
    }
}

/// Classifies one output against what the chain reports of it.
pub fn classify_output(
    found_on_chain: bool,
    deleted: bool,
    tip_height: u64,
    expected_height: u64,
) -> (r: Option<OutputStatus>)
    ensures
        r == spec_classify_output(found_on_chain, deleted, tip_height, expected_height),
{
    if found_on_chain && !deleted {
        Some(OutputStatus::Unspent)
    } else if found_on_chain && deleted {
        Some(OutputStatus::Spent)
    } else if !found_on_chain && tip_height >= expected_height {
        Some(OutputStatus::Invalid)
    } else {
        None
    }
}

/// Applies one chain query result to the store: the output carrying the
/// commitment moves to the pool the classification names, or stays put when
/// the chain is not yet conclusive.
pub fn apply_chain_query_result(
    db: &mut OutputManagerDatabase,
    commitment: &[u8],
    found_on_chain: bool,
    deleted: bool,
    tip_height: u64,
    expected_height: u64,
) -> (r: Result<(), OutputManagerStorageError>)
    requires
        db_wf(old(db)@),
    ensures
        db_wf(final(db)@),
        final(db)@.cipher == old(db)@.cipher,
        final(db)@.known_scripts == old(db)@.known_scripts,
        ({
            let classified = spec_classify_output(found_on_chain, deleted, tip_height, expected_height);
            &&& (classified is None ==> final(db)@ == old(db)@ && r is Ok)
            &&& (classified matches Some(status) ==> {
                &&& (r is Ok <==> contains_commitment(old(db)@.records, commitment@))
                &&& (r is Ok ==> final(db)@.records == old(db)@.records.map_values(
                    |rec: crate::storage::RecordV| spec_mark_record(rec, commitment@, status),
                ))
                &&& (r is Err ==> final(db)@ == old(db)@)
            })
        }),
{
    match classify_output(found_on_chain, deleted, tip_height, expected_height) {
        None => Ok(()),
        Some(status) => db.mark_output_status(commitment, status),
    }
}

/// What the chain reports of one output hash: whether it is mined, and
/// whether its accumulator position is recorded as deleted.
pub open spec fn spec_chain_report(
    node: crate::rpc::BaseNodeWalletRpcService,
    hash: Seq<u8>,
) -> (bool, bool) {
    match crate::rpc::spec_find_utxo(node.db.utxos@, hash) {
        Some(u) => (
            true,
            u.mmr_position <= u32::MAX && crate::rpc::spec_position_deleted(
                node.db.deleted@,
                u.mmr_position as u32,
            ),
        ),
        None => (false, false),
    }
}

/// Reconciles one wallet output against a base node: queries the node's
/// mined-output record by hash, checks the deleted positions, and moves the
/// output to the pool the classification names.
pub fn validate_output_against_node(
    db: &mut OutputManagerDatabase,
    node: &crate::rpc::BaseNodeWalletRpcService,
    output_hash: &[u8],
    commitment: &[u8],
    expected_height: u64,
) -> (r: Result<(), OutputManagerStorageError>)
    requires
        db_wf(old(db)@),
    ensures
        db_wf(final(db)@),
        final(db)@.cipher == old(db)@.cipher,
        final(db)@.known_scripts == old(db)@.known_scripts,
        ({
            let (found, deleted) = spec_chain_report(*node, output_hash@);
            let classified = spec_classify_output(
                found,
                deleted,
                node.db.height_of_longest_chain,
                expected_height,
            );
            &&& (classified is None ==> final(db)@ == old(db)@ && r is Ok)
            &&& (classified matches Some(status) ==> {
                &&& (r is Ok <==> contains_commitment(old(db)@.records, commitment@))
                &&& (r is Ok ==> final(db)@.records == old(db)@.records.map_values(
                    |rec: crate::storage::RecordV| spec_mark_record(rec, commitment@, status),
                ))
                &&& (r is Err ==> final(db)@ == old(db)@)
            })
        }),
{
    let tip = node.db.height_of_longest_chain;
    let (found, deleted) = match node.find_utxo(output_hash) {
        Some(u) => {
            if u.mmr_position <= u32::MAX as u64 {
                (true, node.position_deleted(u.mmr_position as u32))
            } else {
                (true, false)
            }
        },
        None => (false, false),
    };
    apply_chain_query_result(db, commitment, found, deleted, tip, expected_height)
}

/// The store and failure flag a validation pass ends with: each listed
/// (hash, commitment) pair is classified against the node in order and the
/// store updated; a pair whose classification names a pool but whose
/// commitment is absent from the store marks the run failed.
pub open spec fn spec_validation_fold(
    rs: Seq<crate::storage::RecordV>,
    node: crate::rpc::BaseNodeWalletRpcService,
    outputs: Seq<(Vec<u8>, Vec<u8>)>,
    expected_height: u64,
) -> (Seq<crate::storage::RecordV>, bool)
    decreases outputs.len(),
{
    if outputs.len() == 0 {
        (rs, false)
    } else {
        let pair = outputs.first();
        let (found, deleted) = spec_chain_report(node, pair.0@);
        match spec_classify_output(
            found,
            deleted,
            node.db.height_of_longest_chain,
            expected_height,
        ) {
            None => spec_validation_fold(rs, node, outputs.drop_first(), expected_height),
            Some(status) => if contains_commitment(rs, pair.1@) {
                spec_validation_fold(
                    rs.map_values(
                        |rec: crate::storage::RecordV| spec_mark_record(rec, pair.1@, status),
                    ),
                    node,
                    outputs.drop_first(),
                    expected_height,
                )
            } else {
                let (fr, _) = spec_validation_fold(rs, node, outputs.drop_first(), expected_height);
                (fr, true)
            },
        }
    }
}

/// Runs one whole validation pass: every listed output is reconciled
/// against the node in order, and the terminal event is decided from the
/// node's sync state and whether any classified output was missing from the
/// store.
pub fn run_txo_validation(
    task: &TxoValidationTask,
    db: &mut OutputManagerDatabase,
    node: &crate::rpc::BaseNodeWalletRpcService,
    outputs: &Vec<(Vec<u8>, Vec<u8>)>,
    expected_height: u64,
) -> (r: OutputManagerEvent)
    requires
        db_wf(old(db)@),
    ensures
        db_wf(final(db)@),
        final(db)@.cipher == old(db)@.cipher,
        final(db)@.known_scripts == old(db)@.known_scripts,
        ({
            let (fr, run_failed) = spec_validation_fold(
                old(db)@.records,
                *node,
                outputs@,
                expected_height,
            );
            &&& final(db)@.records == fr
            &&& r == spec_terminal_event(
                task.id,
                false,
                node.state_machine.synced_listening,
                run_failed,
            )
        }),
{
    let ghost rs0 = old(db)@.records;
    let ghost fin = spec_validation_fold(rs0, *node, outputs@, expected_height);
    proof {
        assert(outputs@.skip(0) =~= outputs@);
    }
    let mut failed = false;
    let n = outputs.len();
    let mut i: usize = 0;
    while i < n
        invariant
            0 <= i <= n,
            n == outputs@.len(),
            db_wf(db@),
            db@.cipher == old(db)@.cipher,
            db@.known_scripts == old(db)@.known_scripts,
            fin == spec_validation_fold(rs0, *node, outputs@, expected_height),
            ({
                let (fr, fl) = spec_validation_fold(
                    db@.records,
                    *node,
                    outputs@.skip(i as int),
                    expected_height,
                );
                fr == fin.0 && (failed || fl) == fin.1
            }),
        decreases n - i,
    {
        proof {
            assert(outputs@.skip(i as int).first() == outputs@[i as int]);
            assert(outputs@.skip(i as int).drop_first() =~= outputs@.skip(i as int + 1));
        }
        let (ref hash, ref commitment) = outputs[i];
        let ghost before = db@.records;
        match validate_output_against_node(
            db,
            node,
            hash.as_slice(),
            commitment.as_slice(),
            expected_height,
        ) {
            Ok(()) => {
                proof {
                    let pair = outputs@[i as int];
                    let (found, deleted) = spec_chain_report(*node, pair.0@);
                    match spec_classify_output(
                        found,
                        deleted,
                        node.db.height_of_longest_chain,
                        expected_height,
                    ) {
                        None => {
                            assert(db@.records == before);
                        },
                        Some(status) => {
                            assert(contains_commitment(before, pair.1@));
                            assert(db@.records == before.map_values(
                                |rec: crate::storage::RecordV| spec_mark_record(
                                    rec,
                                    pair.1@,
                                    status,
                                ),
                            ));
                        },
                    }
                }
            },
            Err(_) => {
                proof {
                    let pair = outputs@[i as int];
                    assert(!contains_commitment(before, pair.1@));
                    assert(db@.records == before);
                }
                failed = true;
            },
        }
        i += 1;
    }
    proof {
        assert(outputs@.skip(n as int) =~= Seq::<(Vec<u8>, Vec<u8>)>::empty());
    }
    terminal_event(task.id, false, node.state_machine.synced_listening, failed)
}

/// The terminal event of a validation run: aborted runs report so; a base
/// node that is not in sync delays the run; an exhausted retry budget fails
/// it; anything else succeeded.
pub open spec fn spec_terminal_event(
    id: u64,
    aborted: bool,
    is_synced: bool,
    failed: bool,
) -> OutputManagerEvent {
    if aborted {
        OutputManagerEvent::TxoValidationAborted(id)
    } else if !is_synced {
        OutputManagerEvent::TxoValidationDelayed(id)
    } else if failed {
        OutputManagerEvent::TxoValidationFailure(id)
    } else {
        OutputManagerEvent::TxoValidationSuccess(id)
    }
}

/// Decides the terminal event of a validation run.
pub fn terminal_event(id: u64, aborted: bool, is_synced: bool, failed: bool) -> (r:
    OutputManagerEvent)
    ensures
        r == spec_terminal_event(id, aborted, is_synced, failed),
{
    if aborted {
        OutputManagerEvent::TxoValidationAborted(id)
    } else if !is_synced {
        OutputManagerEvent::TxoValidationDelayed(id)
    } else if failed {
        OutputManagerEvent::TxoValidationFailure(id)
    } else {
        OutputManagerEvent::TxoValidationSuccess(id)
    }
}

} // verus!
