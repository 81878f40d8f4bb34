//! The output manager service: the single consumer that owns the output
//! store and the key manager, selects coins, assembles transactions and
//! tracks their lifecycle.

use vstd::prelude::*;
use crate::errors::OutputManagerError;
use crate::errors::OutputManagerStorageError;
use crate::fee::Fee;
use crate::fee::spec_fee;
use crate::fee::spec_fee_with_minimum;
use crate::key_manager::MasterKeyManager;
use crate::output::DbOutputV;
use crate::output::DbUnblindedOutput;
use crate::output::TransactionOutput;
use crate::output::UnblindedOutput;
use crate::selection::UTXOSelectionStrategy;
use crate::selection::SCAN_CHANGE;
use crate::selection::SCAN_SHORT;
use crate::selection::filter_mature_outputs;
use crate::selection::lemma_fee_monotone;
use crate::selection::lemma_mature_sum_le;
use crate::selection::lemma_mv_sorted_sum;
use crate::selection::lemma_selection_sufficiency;
use crate::selection::lemma_sum_outputs_reverse;
use crate::selection::lemma_sum_outputs_status_le;
use crate::selection::reverse_outputs;
use crate::selection::scan_candidates;
use crate::selection::sort_by_maturity_then_value;
use crate::selection::spec_mature_outputs;
use crate::selection::spec_mv_sorted;
use crate::selection::spec_scan;
use crate::storage::Balance;
use crate::storage::OutputManagerDatabase;
use crate::storage::OutputStatus;
use crate::storage::db_wf;
use crate::storage::spec_outputs_with_status;
use crate::storage::spec_pending_incoming_balance;
use crate::storage::spec_value_sorted;
use crate::storage::sum_outputs;
use crate::storage::sum_values;
use crate::storage::views_of_outputs;

verus! {

/// Configuration of the output manager service.
#[derive(Clone, Copy, Debug, PartialEq, Eq, Structural)]
pub struct OutputManagerServiceConfig {
    /// Refuse to build a transaction whose fee exceeds its amount.
    pub prevent_fee_gt_amount: bool,
}

/// The output manager service.
pub struct OutputManagerService {
    /// Service configuration.
    pub config: OutputManagerServiceConfig,
    /// The output store this service owns.
    pub db: OutputManagerDatabase,
    /// The key manager this service owns.
    pub master_key_manager: MasterKeyManager,
    /// Whether a base node has been configured for validation.
    pub base_node_set: bool,
    /// The chain tip height last observed from the base node, if any.
    pub chain_tip: Option<u64>,
    /// The tip height at which validation was last triggered.
    pub last_seen_tip_height: Option<u64>,
}

impl OutputManagerService {
    /// The service invariant: its store is well formed.
    pub open spec fn wf(&self) -> bool {
        db_wf(self.db@)
    }

    /// Starts the service over a store and master secret: stale short-term
    /// encumbrances are swept, and the key manager is built on the secret.
    pub fn new(
        config: OutputManagerServiceConfig,
        mut db: OutputManagerDatabase,
        master_secret: Vec<u8>,
    ) -> (r: Self)
        requires
            db_wf(db@),
        ensures
            r.wf(),
            r.config == config,
            r.db@.records == crate::storage::spec_clear_short_term_model(db@.records, db@.records),
            r.db@.cipher == db@.cipher,
            r.db@.known_scripts == db@.known_scripts,
            r.master_key_manager@.master == master_secret@,
            r.master_key_manager@.next_index == 0,
            r.base_node_set == false,
            r.chain_tip is None,
            r.last_seen_tip_height is None,
    {
        db.clear_short_term_encumberances();
        let master_key_manager = MasterKeyManager::new(master_secret);
        OutputManagerService {
            config,
            db,
            master_key_manager,
            base_node_set: false,
            chain_tip: None,
            last_seen_tip_height: None,
        }
    }

    /// Marks a base node as configured for validation runs.
    pub fn set_base_node(&mut self, set: bool)
        requires
            old(self).wf(),
        ensures
            final(self).wf(),
            *final(self) == (OutputManagerService { base_node_set: set, ..*old(self) }),
    {
        self.base_node_set = set;
    }

    /// Records a base-node state change and says whether a validation run
    /// should be scheduled: on the first observation, and whenever the tip
    /// height moved.
    pub fn handle_base_node_service_event(&mut self, new_tip: Option<u64>) -> (r: bool)
        requires
            old(self).wf(),
        ensures
            final(self).wf(),
            r == match (old(self).last_seen_tip_height, new_tip) {
                (Some(last), Some(n)) => last != n,
                (None, _) => true,
                (Some(_), None) => false,
            },
            *final(self) == (OutputManagerService {
                last_seen_tip_height: new_tip,
                chain_tip: new_tip,
                ..*old(self)
            }),
    {
        let trigger = match (self.last_seen_tip_height, new_tip) {
            (Some(last), Some(n)) => last != n,
            (None, _) => true,
            (Some(_), None) => false,
        };
        self.last_seen_tip_height = new_tip;
        self.chain_tip = new_tip;
        trigger
    }

    /// Starts a validation run: hands out a fresh run identifier, or fails
    /// exactly when no base node is configured.
    pub fn validate_outputs(&mut self) -> (r: Result<u64, OutputManagerError>)
        requires
            old(self).wf(),
        ensures
            final(self).wf(),
            *final(self) == *old(self),
            r is Ok <==> old(self).base_node_set,
            r is Err ==> r == Err::<u64, OutputManagerError>(
                OutputManagerError::NoBaseNodeKeysProvided,
            ),
    {
        if !self.base_node_set {
            return Err(OutputManagerError::NoBaseNodeKeysProvided);
        }
        let id = crate::crypto::random_u64();
        Ok(id)
    }

    /// Stores a spendable output, optionally tied to a transaction. Fails
    /// with a duplicate-output error exactly when its commitment is taken.
    pub fn add_output(&mut self, tx_id: Option<u64>, output: crate::output::UnblindedOutput) -> (r:
        Result<(), OutputManagerError>)
        requires
            old(self).wf(),
            sum_values(old(self).db@.records) + output.value <= u64::MAX,
        ensures
            final(self).wf(),
            final(self).master_key_manager == old(self).master_key_manager,
            r is Ok <==> !crate::storage::contains_commitment(
                old(self).db@.records,
                crate::crypto::spec_commitment(output@.value, output@.spending_key),
            ),
            r is Ok ==> ({
                let rs2 = final(self).db@.records;
                &&& rs2.len() == old(self).db@.records.len() + 1
                &&& rs2.last().output.output == output@
                &&& rs2.last().status == OutputStatus::Unspent
                &&& rs2.last().tx_id == tx_id
                &&& rs2.take(old(self).db@.records.len() as int) == old(self).db@.records
            }),
            r is Err ==> final(self).db@ == old(self).db@ && r == Err::<(),
                OutputManagerError,
            >(OutputManagerError::OutputManagerStorageError(
                OutputManagerStorageError::DuplicateOutput,
            )),
    {
        let db_output = crate::output::DbUnblindedOutput::from_unblinded_output(output);
        let ghost before = self.db@.records;
        let res = match tx_id {
            None => self.db.add_unspent_output(db_output),
            Some(t) => self.db.add_unspent_output_with_tx_id(t, db_output),
        };
        match res {
            Ok(()) => {
                proof {
                    assert(self.db@.records.take(before.len() as int) =~= before);
                }
                Ok(())
            },
            Err(e) => Err(OutputManagerError::from_storage(e)),
        }
    }

    /// Replaces the stored metadata signature of the output carrying the
    /// given on-chain output's commitment.
    pub fn update_output_metadata_signature(&mut self, output: &crate::output::TransactionOutput)
        -> (r: Result<(), OutputManagerError>)
        requires
            old(self).wf(),
        ensures
            final(self).wf(),
            final(self).master_key_manager == old(self).master_key_manager,
            r is Ok <==> crate::storage::contains_commitment(
                old(self).db@.records,
                output@.commitment,
            ),
            r is Err ==> final(self).db@ == old(self).db@ && r == Err::<(),
                OutputManagerError,
            >(OutputManagerError::OutputManagerStorageError(
                OutputManagerStorageError::ValueNotFound,
            )),
    {
        match self.db.update_output_metadata_signature(output) {
            Ok(()) => Ok(()),
            Err(e) => Err(OutputManagerError::from_storage(e)),
        }
    }

    /// The derived balance, as of the given chain tip.
    pub fn get_balance(&self, current_tip: Option<u64>) -> (r: Balance)
        requires
            self.wf(),
        ensures
            r.available_balance == crate::storage::spec_available_balance(
                self.db@.records,
                current_tip,
            ),
            r.pending_incoming_balance == spec_pending_incoming_balance(self.db@.records),
            r.pending_outgoing_balance == crate::storage::spec_pending_outgoing_balance(
                self.db@.records,
            ),
            r.time_locked_balance == match current_tip {
                Some(t) => Some(
                    crate::storage::spec_time_locked_balance(self.db@.records, t) as u64,
                ),
                None => None::<u64>,
            },
    {
        self.db.get_balance(current_tip)
    }

    /// Makes a transaction's short-term encumbrance official.
    pub fn confirm_encumberance(&mut self, tx_id: u64) -> (r: Result<(), OutputManagerError>)
        requires
            old(self).wf(),
        ensures
            final(self).wf(),
            final(self).master_key_manager == old(self).master_key_manager,
            r is Ok,
            final(self).db@.records == old(self).db@.records.map_values(
                |rec: crate::storage::RecordV| crate::storage::spec_confirm_record(rec, tx_id),
            ),
    {
        self.db.confirm_encumbered_outputs(tx_id);
        Ok(())
    }

    /// Cancels a pending transaction and frees its encumbered outputs.
    pub fn cancel_transaction(&mut self, tx_id: u64) -> (r: Result<(), OutputManagerError>)
        requires
            old(self).wf(),
        ensures
            final(self).wf(),
            final(self).master_key_manager == old(self).master_key_manager,
            r is Ok <==> crate::storage::spec_has_cancellable(old(self).db@.records, tx_id),
            r is Ok ==> final(self).db@.records == crate::storage::spec_cancel_model(
                old(self).db@.records,
                tx_id,
            ),
            r is Err ==> final(self).db@ == old(self).db@ && r == Err::<(),
                OutputManagerError,
            >(OutputManagerError::OutputManagerStorageError(
                OutputManagerStorageError::ValueNotFound,
            )),
    {
        match self.db.cancel_pending_transaction_outputs(tx_id) {
            Ok(()) => Ok(()),
            Err(e) => Err(OutputManagerError::from_storage(e)),
        }
    }

    /// Restores the outputs of a previously cancelled inbound transaction.
    pub fn reinstate_cancelled_inbound_transaction_outputs(&mut self, tx_id: u64) -> (r: Result<
        (),
        OutputManagerError,
    >)
        requires
            old(self).wf(),
        ensures
            final(self).wf(),
            final(self).master_key_manager == old(self).master_key_manager,
            r is Ok <==> exists|i: int|
                0 <= i < old(self).db@.records.len() && (#[trigger] old(self).db@.records[i]).status
                    == OutputStatus::CancelledInbound && old(self).db@.records[i].tx_id == Some(
                    tx_id,
                ),
            r is Ok ==> final(self).db@.records == old(self).db@.records.map_values(
                |rec: crate::storage::RecordV| crate::storage::spec_reinstate_record(rec, tx_id),
            ),
            r is Err ==> final(self).db@ == old(self).db@ && r == Err::<(),
                OutputManagerError,
            >(OutputManagerError::OutputManagerStorageError(
                OutputManagerStorageError::ValueNotFound,
            )),
    {
        match self.db.reinstate_cancelled_inbound_output(tx_id) {
            Ok(()) => Ok(()),
            Err(e) => Err(OutputManagerError::from_storage(e)),
        }
    }

    /// Marks a pending coinbase as abandoned, or clears the mark.
    pub fn set_coinbase_abandoned(&mut self, tx_id: u64, abandoned: bool) -> (r: Result<
        (),
        OutputManagerError,
    >)
        requires
            old(self).wf(),
        ensures
            final(self).wf(),
            final(self).master_key_manager == old(self).master_key_manager,
            r is Ok,
            final(self).db@.records == old(self).db@.records.map_values(
                |rec: crate::storage::RecordV| crate::storage::spec_set_abandoned_record(
                    rec,
                    tx_id,
                    abandoned,
                ),
            ),
    {
        self.db.set_coinbase_abandoned(tx_id, abandoned);
        Ok(())
    }

    /// All spent outputs.
    pub fn fetch_spent_outputs(&self) -> (r: Vec<DbUnblindedOutput>)
        requires
            self.wf(),
        ensures
            views_of_outputs(r@) == spec_outputs_with_status(self.db@.records, OutputStatus::Spent),
    {
        self.db.fetch_spent_outputs()
    }

    /// All spendable outputs, sorted from lowest value to highest.
    pub fn fetch_unspent_outputs(&self) -> (r: Vec<DbUnblindedOutput>)
        requires
            self.wf(),
        ensures
            views_of_outputs(r@) == spec_value_sorted(
                spec_outputs_with_status(self.db@.records, OutputStatus::Unspent),
            ),
    {
        self.db.fetch_sorted_unspent_outputs()
    }

    /// All outputs the last validation disproved.
    pub fn fetch_invalid_outputs(&self) -> (r: Vec<DbUnblindedOutput>)
        requires
            self.wf(),
        ensures
            views_of_outputs(r@) == spec_outputs_with_status(
                self.db@.records,
                OutputStatus::Invalid,
            ),
    {
        self.db.get_invalid_outputs()
    }

    /// Registers a one-sided payment script to watch for; registering the
    /// same script twice is harmless.
    pub fn add_known_script(&mut self, known_script: crate::storage::KnownOneSidedPaymentScript)
        -> (r: Result<(), OutputManagerError>)
        requires
            old(self).wf(),
        ensures
            final(self).wf(),
            final(self).master_key_manager == old(self).master_key_manager,
            r is Ok,
            final(self).db@.records == old(self).db@.records,
            (exists|i: int|
                0 <= i < old(self).db@.known_scripts.len()
                    && (#[trigger] old(self).db@.known_scripts[i]).script == known_script@.script)
                ==> final(self).db@.known_scripts == old(self).db@.known_scripts,
            !(exists|i: int|
                0 <= i < old(self).db@.known_scripts.len()
                    && (#[trigger] old(self).db@.known_scripts[i]).script == known_script@.script)
                ==> final(self).db@.known_scripts == old(self).db@.known_scripts.push(
                known_script@,
            ),
    {
        match self.db.add_known_script(known_script) {
            Ok(()) => Ok(()),
            Err(OutputManagerStorageError::DuplicateOutput) => Ok(()),
            Err(e) => Err(OutputManagerError::from_storage(e)),
        }
    }
}

/// The candidate outputs a selection run considers: the spendable pool in
/// stable value order, restricted to outputs mature at the tip.
pub open spec fn spec_candidates(
    rs: Seq<crate::storage::RecordV>,
    tip: Option<u64>,
) -> Seq<DbOutputV> {
    spec_mature_outputs(spec_value_sorted(spec_outputs_with_status(rs, OutputStatus::Unspent)), tip)
}

/// The strategy a selection run uses: the caller's, if stated; else
/// maturity-then-smallest when the tip is unknown; else largest-first when
/// the amount exceeds the largest candidate, falling back to
/// maturity-then-smallest.
pub open spec fn spec_chosen_strategy(
    strategy: Option<UTXOSelectionStrategy>,
    tip: Option<u64>,
    filtered: Seq<DbOutputV>,
    amount: int,
) -> UTXOSelectionStrategy {
    match strategy {
        Some(s) => s,
        None => match tip {
            None => UTXOSelectionStrategy::MaturityThenSmallest,
            Some(_) => if filtered.len() == 0 {
                UTXOSelectionStrategy::Smallest
            } else if amount > filtered.last().output.value {
                UTXOSelectionStrategy::Largest
            } else {
                UTXOSelectionStrategy::MaturityThenSmallest
            },
        },
    }
}

/// The candidates in the order the chosen strategy scans them.
pub open spec fn spec_ordered_candidates(
    strategy: UTXOSelectionStrategy,
    filtered: Seq<DbOutputV>,
) -> Seq<DbOutputV> {
    match strategy {
        UTXOSelectionStrategy::Smallest => filtered,
        UTXOSelectionStrategy::MaturityThenSmallest => spec_mv_sorted(filtered),
        UTXOSelectionStrategy::Largest => filtered.reverse(),
    }
}

/// The with-change fee the funds check uses after an exhausted scan: the fee
/// of spending every candidate, or zero when there was none.
pub open spec fn spec_final_fee_with_change(
    ordered: Seq<DbOutputV>,
    fee_per_gram: int,
    output_count: int,
) -> int {
    if ordered.len() == 0 {
        0
    } else {
        spec_fee(fee_per_gram, 1, ordered.len() as int, output_count + 1)
    }
}

impl OutputManagerService {
    /// Selects spendable outputs covering an amount plus the fee they incur,
    /// deciding whether a change output is required. Fails with
    /// `FundsPending` when pending incoming funds would have covered the
    /// shortfall, and `NotEnoughFunds` otherwise.
    pub fn select_utxos(
        &self,
        amount: u64,
        fee_per_gram: u64,
        output_count: u64,
        strategy: Option<UTXOSelectionStrategy>,
    ) -> (r: Result<(Vec<DbUnblindedOutput>, bool, u64), OutputManagerError>)
        requires
            self.wf(),
            output_count <= u64::MAX - 2,
            spec_fee(
                fee_per_gram as int,
                1,
                spec_outputs_with_status(self.db@.records, OutputStatus::Unspent).len() as int + 1,
                output_count as int + 2,
            ) <= u64::MAX,
        ensures
            ({
                let filtered = spec_candidates(self.db@.records, self.chain_tip);
                let strat = spec_chosen_strategy(strategy, self.chain_tip, filtered, amount as int);
                let ordered = spec_ordered_candidates(strat, filtered);
                let (kind, k, total) = spec_scan(
                    ordered,
                    amount as int,
                    fee_per_gram as int,
                    output_count as int,
                );
                let pending = spec_pending_incoming_balance(self.db@.records);
                let fwc = spec_final_fee_with_change(
                    ordered,
                    fee_per_gram as int,
                    output_count as int,
                );
                &&& (r is Ok <==> (kind != SCAN_SHORT || (ordered.len() == 0 && amount == 0)))
                &&& (r matches Ok((utxos, change, tot)) ==> views_of_outputs(utxos@)
                    == ordered.take(k) && change == (kind == SCAN_CHANGE) && tot == total)
                &&& (r == Err::<(Vec<DbUnblindedOutput>, bool, u64), OutputManagerError>(
                    OutputManagerError::FundsPending,
                ) <==> (kind == SCAN_SHORT && !(ordered.len() == 0 && amount == 0) && total
                    + pending >= amount + fwc))
                &&& (r == Err::<(Vec<DbUnblindedOutput>, bool, u64), OutputManagerError>(
                    OutputManagerError::NotEnoughFunds,
                ) <==> (kind == SCAN_SHORT && !(ordered.len() == 0 && amount == 0) && total
                    + pending < amount + fwc))
            }),
    {
        let ghost rs = self.db@.records;
        let sorted = self.db.fetch_sorted_unspent_outputs();
        let filtered = filter_mature_outputs(&sorted, self.chain_tip);
        let ghost filtered_v = spec_candidates(rs, self.chain_tip);
        proof {
            assert(views_of_outputs(filtered@) == filtered_v);
        }

        let connected = self.chain_tip.is_some();
        let strat: UTXOSelectionStrategy = match strategy {
            Some(s) => s,
            None => {
                if !connected {
                    UTXOSelectionStrategy::MaturityThenSmallest
                } else if filtered.len() == 0 {
                    UTXOSelectionStrategy::Smallest
                } else {
                    let largest = filtered[filtered.len() - 1].unblinded_output.value;
                    if amount > largest {
                        UTXOSelectionStrategy::Largest
                    } else {
                        UTXOSelectionStrategy::MaturityThenSmallest
                    }
                }
            },
        };
        proof {
            assert(strat == spec_chosen_strategy(strategy, self.chain_tip, filtered_v, amount as int));
        }

        let ordered = match strat {
            UTXOSelectionStrategy::Smallest => filtered,
            UTXOSelectionStrategy::MaturityThenSmallest => sort_by_maturity_then_value(&filtered),
            UTXOSelectionStrategy::Largest => reverse_outputs(&filtered),
        };
        let ghost ordered_v = spec_ordered_candidates(strat, filtered_v);
        proof {
            assert(views_of_outputs(ordered@) == ordered_v);
            lemma_sum_outputs_status_le(rs, OutputStatus::Unspent);
            lemma_mature_sum_le(
                spec_value_sorted(spec_outputs_with_status(rs, OutputStatus::Unspent)),
                self.chain_tip,
            );
            match strat {
                UTXOSelectionStrategy::Smallest => {},
                UTXOSelectionStrategy::MaturityThenSmallest => {
                    lemma_mv_sorted_sum(filtered_v);
                },
                UTXOSelectionStrategy::Largest => {
                    lemma_sum_outputs_reverse(filtered_v);
                },
            }
            assert(sum_outputs(ordered_v) <= u64::MAX);
            crate::selection::lemma_mv_sorted_len(filtered_v);
            crate::selection::lemma_mature_len_le(
                spec_value_sorted(spec_outputs_with_status(rs, OutputStatus::Unspent)),
                self.chain_tip,
            );
            crate::storage::lemma_value_sorted_len(
                spec_outputs_with_status(rs, OutputStatus::Unspent),
            );
            lemma_fee_monotone(
                fee_per_gram as int,
                1,
                ordered_v.len() as int + 1,
                output_count as int + 2,
                spec_outputs_with_status(rs, OutputStatus::Unspent).len() as int + 1,
                output_count as int + 2,
            );
        }

        let (kind, k, total) = scan_candidates(&ordered, amount, fee_per_gram, output_count);
        proof {
            lemma_selection_sufficiency(
                ordered_v,
                0,
                0,
                amount as int,
                fee_per_gram as int,
                output_count as int,
            );
        }
        if kind == SCAN_SHORT && !(ordered.len() == 0 && amount == 0) {
            let balance = self.db.get_balance(self.chain_tip);
            let pending = balance.pending_incoming_balance;
            let fwc: u64 = if ordered.len() == 0 {
                0
            } else {
                proof {
                    lemma_fee_monotone(
                        fee_per_gram as int,
                        1,
                        ordered_v.len() as int,
                        output_count as int + 1,
                        spec_outputs_with_status(rs, OutputStatus::Unspent).len() as int + 1,
                        output_count as int + 2,
                    );
                }
                Fee::calculate(fee_per_gram, 1, ordered.len() as u64, output_count + 1)
            };
            if (total as u128) + (pending as u128) >= (amount as u128) + (fwc as u128) {
                Err(OutputManagerError::FundsPending)
            } else {
                Err(OutputManagerError::NotEnoughFunds)
            }
        } else {
            let mut utxos = ordered;
            utxos.truncate(k);
            proof {
                assert(views_of_outputs(utxos@) =~= ordered_v.take(k as int));
            }
            Ok((utxos, kind == SCAN_CHANGE, total))
        }
    }
}

/// Blocks a coinbase output must wait after its block before it may be spent.
pub const COINBASE_LOCK_HEIGHT: u64 = 6;

/// One selection run, in full: the scan order, the outcome kind, the number
/// of outputs taken, and their total value.
pub open spec fn spec_selection(
    rs: Seq<crate::storage::RecordV>,
    tip: Option<u64>,
    strategy: Option<UTXOSelectionStrategy>,
    amount: int,
    fee_per_gram: int,
    output_count: int,
) -> (Seq<DbOutputV>, int, int, int) {
    let filtered = spec_candidates(rs, tip);
    let strat = spec_chosen_strategy(strategy, tip, filtered, amount);
    let ordered = spec_ordered_candidates(strat, filtered);
    let (kind, k, total) = spec_scan(ordered, amount, fee_per_gram, output_count);
    (ordered, kind, k, total)
}

/// Bounds every selection run: the scan stops within the candidates, and the
/// selected total never exceeds the store's total value.
pub proof fn lemma_selection_bounds(
    rs: Seq<crate::storage::RecordV>,
    tip: Option<u64>,
    strategy: Option<UTXOSelectionStrategy>,
    amount: int,
    fee_per_gram: int,
    output_count: int,
)
    requires
        0 <= amount,
        0 <= fee_per_gram,
        0 <= output_count,
    ensures
        ({
            let (ordered, kind, k, total) = spec_selection(
                rs,
                tip,
                strategy,
                amount,
                fee_per_gram,
                output_count,
            );
            &&& 0 <= k <= ordered.len()
            &&& ordered.len() <= spec_outputs_with_status(rs, OutputStatus::Unspent).len()
            &&& total == sum_outputs(ordered.take(k))
            &&& 0 <= total <= sum_values(rs)
            &&& sum_outputs(ordered) <= sum_values(rs)
            &&& kind == crate::selection::SCAN_EXACT || kind == SCAN_CHANGE || kind
                == SCAN_SHORT
            &&& (kind == SCAN_SHORT ==> k == ordered.len())
            &&& (kind == SCAN_CHANGE ==> total > amount + spec_fee(
                fee_per_gram,
                1,
                k,
                output_count + 1,
            ))
            &&& (kind == crate::selection::SCAN_EXACT ==> total == amount + spec_fee(
                fee_per_gram,
                1,
                k,
                output_count,
            ))
        }),
{
    let pool = spec_outputs_with_status(rs, OutputStatus::Unspent);
    let filtered = spec_candidates(rs, tip);
    let strat = spec_chosen_strategy(strategy, tip, filtered, amount);
    let ordered = spec_ordered_candidates(strat, filtered);
    lemma_sum_outputs_status_le(rs, OutputStatus::Unspent);
    crate::storage::lemma_value_sorted_sum(pool);
    lemma_mature_sum_le(spec_value_sorted(pool), tip);
    crate::storage::lemma_value_sorted_len(pool);
    crate::selection::lemma_mature_len_le(spec_value_sorted(pool), tip);
    match strat {
        UTXOSelectionStrategy::Smallest => {},
        UTXOSelectionStrategy::MaturityThenSmallest => {
            lemma_mv_sorted_sum(filtered);
            crate::selection::lemma_mv_sorted_len(filtered);
        },
        UTXOSelectionStrategy::Largest => {
            lemma_sum_outputs_reverse(filtered);
            assert(filtered.reverse().len() == filtered.len());
        },
    }
    lemma_selection_sufficiency(ordered, 0, 0, amount, fee_per_gram, output_count);
    let (kind, k, total) = spec_scan(ordered, amount, fee_per_gram, output_count);
    assert(ordered.subrange(0, k) =~= ordered.take(k));
    crate::selection::lemma_sum_outputs_take_le(ordered, k);
    crate::selection::lemma_sum_outputs_nonneg(ordered.take(k));
}

/// The contract of a payment back to this wallet: the funds and fee-guard
/// errors come exactly when selection or the guard says so; success comes
/// exactly when neither fires and the derived output commitments are fresh
/// and distinct; on success the fee, the transaction, the store transition
/// (inputs encumbered and everything confirmed) and the key-counter advance
/// are pinned.
pub open spec fn spec_pay_to_self_post(
    pre: OutputManagerService,
    post: OutputManagerService,
    tx_id: u64,
    amount: u64,
    fee_per_gram: u64,
    lock_height: Option<u64>,
    r: Result<(u64, crate::builder::Transaction), OutputManagerError>,
) -> bool {
    let (ordered, kind, k, total) = spec_selection(
        pre.db@.records,
        pre.chain_tip,
        None,
        amount as int,
        fee_per_gram as int,
        1,
    );
    let fee_wc = spec_fee(fee_per_gram as int, 1, k, 2);
    let fee = if kind == SCAN_CHANGE {
        fee_wc
    } else {
        spec_fee(fee_per_gram as int, 1, k, 1)
    };
    let funds_err = kind == SCAN_SHORT && !(ordered.len() == 0 && amount == 0);
    let guard_err = !funds_err && pre.config.prevent_fee_gt_amount && fee > amount;
    let key0 = crate::key_manager::spec_next_spend_key(pre.master_key_manager@);
    let key1 = crate::crypto::spec_derived_key(
        pre.master_key_manager@.master,
        crate::key_manager::BRANCH_SPEND,
        (pre.master_key_manager@.next_index + 1) as u64,
    );
    let change_value = (total - amount - fee_wc) as u64;
    let c0 = crate::crypto::spec_commitment(amount, key0);
    let c1 = crate::crypto::spec_commitment(change_value, key1);
    let fresh = !crate::storage::contains_commitment(pre.db@.records, c0) && (kind == SCAN_CHANGE
        ==> !crate::storage::contains_commitment(pre.db@.records, c1) && c1 != c0);
    let out_count = if kind == SCAN_CHANGE {
        2int
    } else {
        1int
    };
    &&& (r == Err::<(u64, crate::builder::Transaction), OutputManagerError>(
        OutputManagerError::FundsPending,
    ) || r == Err::<(u64, crate::builder::Transaction), OutputManagerError>(
        OutputManagerError::NotEnoughFunds,
    ) <==> funds_err)
    &&& ((r matches Err(e) && e is BuildError) <==> guard_err)
    &&& (r is Ok <==> (!funds_err && !guard_err && fresh))
    &&& (r matches Ok((f, tx)) ==> {
        &&& f == fee
        &&& tx@.kernels.len() == 1
        &&& tx@.kernels[0].features == crate::builder::KERNEL_FEATURES_EMPTY
        &&& tx@.kernels[0].fee == fee
        &&& tx@.kernels[0].lock_height == (match lock_height {
            Some(l) => l,
            None => 0,
        })
        &&& tx@.inputs == ordered.take(k).map_values(|o: DbOutputV| o.commitment)
        &&& tx@.outputs.len() == out_count
        &&& tx@.outputs[0].commitment == c0
        &&& (kind == SCAN_CHANGE ==> tx@.outputs[1].commitment == c1)
        &&& post.db@.records.len() == pre.db@.records.len() + out_count
        &&& (forall|j: int|
            0 <= j < pre.db@.records.len() ==> #[trigger] post.db@.records[j]
                == crate::storage::spec_confirm_record(
                crate::storage::spec_encumber_record(pre.db@.records[j], tx_id, ordered.take(k)),
                tx_id,
            ))
        &&& ({
            let first = post.db@.records[pre.db@.records.len() as int];
            &&& first.status == OutputStatus::EncumberedToBeReceived
            &&& first.tx_id == Some(tx_id)
            &&& first.output.output.value == amount
            &&& first.output.output.spending_key == key0
            &&& first.output.commitment == c0
            &&& first.output.output.script == crate::script::spec_nop_script()
            &&& first.output.output.metadata_signature == crate::output::spec_final_signature_for(
                amount,
                key0,
                crate::script::spec_nop_script(),
                crate::output::OutputFeatures { flags: 0, maturity: 0 },
                first.output.output.sender_offset_public_key,
            )
        })
        &&& (kind == SCAN_CHANGE ==> {
            let second = post.db@.records[pre.db@.records.len() as int + 1];
            &&& second.status == OutputStatus::EncumberedToBeReceived
            &&& second.tx_id == Some(tx_id)
            &&& second.output.output.value == change_value
            &&& second.output.output.spending_key == key1
            &&& second.output.commitment == c1
            &&& second.output.output.script == crate::script::spec_nop_script()
            &&& second.output.output.metadata_signature == crate::output::spec_final_signature_for(
                change_value,
                key1,
                crate::script::spec_nop_script(),
                crate::output::OutputFeatures { flags: 0, maturity: 0 },
                second.output.output.sender_offset_public_key,
            )
        })
        &&& (forall|j: int|
            0 <= j < out_count ==> {
                let o = #[trigger] tx@.outputs[j];
                o.metadata_signature == crate::output::spec_final_signature_for(
                    (if j == 0 {
                        amount
                    } else {
                        change_value
                    }),
                    (if j == 0 {
                        key0
                    } else {
                        key1
                    }),
                    crate::script::spec_nop_script(),
                    crate::output::OutputFeatures { flags: 0, maturity: 0 },
                    o.sender_offset_public_key,
                )
            })
        &&& post.master_key_manager@.master == pre.master_key_manager@.master
        &&& post.master_key_manager@.next_index == pre.master_key_manager@.next_index + out_count
    })
    &&& (r is Err ==> post.db@ == pre.db@)
}

/// Conservation at the sending entry point: a successful preparation grows
/// the total stored value by exactly the change output it created — the
/// selected inputs only move pools — and a failed one changes nothing.
pub proof fn lemma_prepare_conserves_value(
    pre: OutputManagerService,
    post: OutputManagerService,
    tx_id: u64,
    amount: u64,
    fee_per_gram: u64,
    lock_height: Option<u64>,
    message: String,
    recipient_script: crate::script::TariScript,
    r: Result<crate::builder::SenderTransactionProtocol, OutputManagerError>,
)
    requires
        spec_prepare_post(
            pre,
            post,
            tx_id,
            amount,
            fee_per_gram,
            lock_height,
            message,
            recipient_script,
            r,
        ),
    ensures
        r matches Ok(stp) ==> sum_values(post.db@.records) == sum_values(pre.db@.records) + (
        match stp.change_output {
            Some(c) => c@.value as int,
            None => 0,
        }),
        r is Err ==> sum_values(post.db@.records) == sum_values(pre.db@.records),
{
    if r is Ok {
        let stp = r->Ok_0;
        let (ordered, kind, k, total) = spec_selection(
            pre.db@.records,
            pre.chain_tip,
            None,
            amount as int,
            fee_per_gram as int,
            1,
        );
        let recv = (match stp.change_output {
            Some(c) => seq![
                DbOutputV {
                    output: c@,
                    commitment: crate::crypto::spec_commitment(c@.value, c@.spending_key),
                    hash: crate::output::spec_output_hash(
                        c@.features,
                        crate::crypto::spec_commitment(c@.value, c@.spending_key),
                        c@.script,
                    ),
                },
            ],
            None => Seq::<DbOutputV>::empty(),
        });
        crate::storage::lemma_conservation_encumber(
            pre.db@.records,
            tx_id,
            ordered.take(k),
            recv,
        );
        match stp.change_output {
            Some(c) => {
                crate::selection::lemma_sum_outputs_singleton(recv[0]);
            },
            None => {},
        }
    }
}

/// The commitment of the `j`-th output a coin split creates: the split
/// amount, or the change value for the last one, under the spend key derived
/// at the `j`-th index consumed.
pub open spec fn spec_coin_split_commitment(
    m: crate::key_manager::MkmV,
    amount_per_split: u64,
    split_count: u64,
    change_value: u64,
    j: int,
) -> Seq<u8> {
    let value = if j < split_count {
        amount_per_split
    } else {
        change_value
    };
    crate::crypto::spec_commitment(
        value,
        crate::crypto::spec_derived_key(
            m.master,
            crate::key_manager::BRANCH_SPEND,
            (m.next_index + j) as u64,
        ),
    )
}

/// Whether the coin split's derived commitment family can be stored: every
/// commitment fresh in the store, and the family pairwise distinct.
pub open spec fn spec_coin_split_family_fresh(
    rs: Seq<crate::storage::RecordV>,
    m: crate::key_manager::MkmV,
    amount_per_split: u64,
    split_count: u64,
    change_value: u64,
    out_count: int,
) -> bool {
    &&& (forall|j: int|
        0 <= j < out_count ==> !crate::storage::contains_commitment(
            rs,
            #[trigger] spec_coin_split_commitment(m, amount_per_split, split_count, change_value, j),
        ))
    &&& (forall|i: int, j: int|
        0 <= i < j < out_count ==> #[trigger] spec_coin_split_commitment(
            m,
            amount_per_split,
            split_count,
            change_value,
            i,
        ) != #[trigger] spec_coin_split_commitment(m, amount_per_split, split_count, change_value, j))
}

/// The contract of a coin split: the funds errors come exactly when
/// selection says so or when the selected total cannot cover the fee plus
/// the split total; success comes exactly when neither fires and the
/// derived output commitments are fresh and pairwise distinct; on success
/// the fee, the total, the transaction's outputs, the store transition
/// (inputs encumbered, every new output confirmed inbound under freshly
/// derived key pairs) and the key-counter advance are pinned.
pub open spec fn spec_coin_split_post(
    pre: OutputManagerService,
    post: OutputManagerService,
    amount_per_split: u64,
    split_count: u64,
    fee_per_gram: u64,
    lock_height: Option<u64>,
    r: Result<(u64, crate::builder::Transaction, u64, u64), OutputManagerError>,
) -> bool {
    let total_split = (amount_per_split * split_count) as int;
    let (ordered, kind, k, total) = spec_selection(
        pre.db@.records,
        pre.chain_tip,
        Some(UTXOSelectionStrategy::Largest),
        total_split,
        fee_per_gram as int,
        split_count as int,
    );
    let out_count = if kind == SCAN_CHANGE {
        split_count as int + 1
    } else {
        split_count as int
    };
    let fee = spec_fee(fee_per_gram as int, 1, k, out_count);
    let change_value = (total - total_split - fee) as u64;
    let m = pre.master_key_manager@;
    let funds_err = kind == SCAN_SHORT && !(ordered.len() == 0 && total_split == 0);
    let underflow_err = !funds_err && total < total_split + fee;
    let fresh = spec_coin_split_family_fresh(
        pre.db@.records,
        m,
        amount_per_split,
        split_count,
        change_value,
        out_count,
    );
    &&& (r == Err::<(u64, crate::builder::Transaction, u64, u64), OutputManagerError>(
        OutputManagerError::FundsPending,
    ) || r == Err::<(u64, crate::builder::Transaction, u64, u64), OutputManagerError>(
        OutputManagerError::NotEnoughFunds,
    ) <==> (funds_err || underflow_err))
    &&& (underflow_err ==> r == Err::<(u64, crate::builder::Transaction, u64, u64),
        OutputManagerError>(OutputManagerError::NotEnoughFunds))
    &&& (r is Ok <==> (!funds_err && !underflow_err && fresh))
    &&& (r matches Ok((tx_id, tx, f, tot)) ==> {
        &&& f == fee
        &&& tot == total
        &&& tx@.kernels.len() == 1
        &&& tx@.kernels[0].features == crate::builder::KERNEL_FEATURES_EMPTY
        &&& tx@.kernels[0].fee == fee
        &&& tx@.kernels[0].lock_height == (match lock_height {
            Some(l) => l,
            None => 0,
        })
        &&& tx@.inputs == ordered.take(k).map_values(|o: DbOutputV| o.commitment)
        &&& tx@.outputs.len() == out_count
        &&& (forall|j: int|
            0 <= j < out_count ==> {
                let o = #[trigger] tx@.outputs[j];
                &&& o.commitment == spec_coin_split_commitment(
                    m,
                    amount_per_split,
                    split_count,
                    change_value,
                    j,
                )
                &&& o.metadata_signature == crate::output::spec_final_signature_for(
                    (if j < split_count as int {
                        amount_per_split
                    } else {
                        change_value
                    }),
                    crate::crypto::spec_derived_key(
                        m.master,
                        crate::key_manager::BRANCH_SPEND,
                        (m.next_index + j) as u64,
                    ),
                    crate::script::spec_nop_script(),
                    crate::output::OutputFeatures { flags: 0, maturity: 0 },
                    o.sender_offset_public_key,
                )
            })
        &&& post.db@.records.len() == pre.db@.records.len() + out_count
        &&& (forall|j: int|
            0 <= j < pre.db@.records.len() ==> #[trigger] post.db@.records[j]
                == crate::storage::spec_confirm_record(
                crate::storage::spec_encumber_record(pre.db@.records[j], tx_id, ordered.take(k)),
                tx_id,
            ))
        &&& (forall|j: int|
            pre.db@.records.len() <= j < post.db@.records.len() ==> {
                let rec = #[trigger] post.db@.records[j];
                let jj = j - pre.db@.records.len();
                &&& rec.status == OutputStatus::EncumberedToBeReceived
                &&& rec.tx_id == Some(tx_id)
                &&& rec.output.output.value == (if jj < split_count as int {
                    amount_per_split as int
                } else {
                    change_value as int
                })
                &&& rec.output.output.spending_key == crate::crypto::spec_derived_key(
                    m.master,
                    crate::key_manager::BRANCH_SPEND,
                    (m.next_index + jj) as u64,
                )
                &&& rec.output.output.script_private_key == crate::crypto::spec_derived_key(
                    m.master,
                    crate::key_manager::BRANCH_SCRIPT,
                    (m.next_index + jj) as u64,
                )
                &&& rec.output.commitment == spec_coin_split_commitment(
                    m,
                    amount_per_split,
                    split_count,
                    change_value,
                    jj,
                )
                &&& rec.output.output.script == crate::script::spec_nop_script()
                &&& rec.output.output.metadata_signature
                    == crate::output::spec_final_signature_for(
                    (if jj < split_count as int {
                        amount_per_split
                    } else {
                        change_value
                    }),
                    rec.output.output.spending_key,
                    crate::script::spec_nop_script(),
                    crate::output::OutputFeatures { flags: 0, maturity: 0 },
                    rec.output.output.sender_offset_public_key,
                )
            })
        &&& post.master_key_manager@.master == m.master
        &&& post.master_key_manager@.next_index == m.next_index + out_count
    })
    &&& (r is Err ==> post.db@ == pre.db@)
}

/// Under the per-output commitment pins, storing the coin-split outputs is
/// admissible exactly when the derived commitment family is fresh and
/// pairwise distinct.
pub proof fn lemma_coin_split_fresh_equiv(
    rs: Seq<crate::storage::RecordV>,
    m: crate::key_manager::MkmV,
    amount_per_split: u64,
    split_count: u64,
    change_value: u64,
    rv: Seq<DbOutputV>,
    out_count: int,
)
    requires
        rv.len() == out_count,
        forall|j: int|
            0 <= j < rv.len() ==> (#[trigger] rv[j]).commitment == spec_coin_split_commitment(
                m,
                amount_per_split,
                split_count,
                change_value,
                j,
            ),
    ensures
        crate::storage::spec_all_receives_fresh(rs, rv) <==> spec_coin_split_family_fresh(
            rs,
            m,
            amount_per_split,
            split_count,
            change_value,
            out_count,
        ),
{
    if crate::storage::spec_all_receives_fresh(rs, rv) {
        assert forall|j: int|
            0 <= j < out_count implies !crate::storage::contains_commitment(
            rs,
            #[trigger] spec_coin_split_commitment(m, amount_per_split, split_count, change_value, j),
        ) by {
            assert(rv[j].commitment == spec_coin_split_commitment(
                m,
                amount_per_split,
                split_count,
                change_value,
                j,
            ));
        }
        assert forall|i: int, j: int|
            0 <= i < j < out_count implies #[trigger] spec_coin_split_commitment(
            m,
            amount_per_split,
            split_count,
            change_value,
            i,
        ) != #[trigger] spec_coin_split_commitment(
            m,
            amount_per_split,
            split_count,
            change_value,
            j,
        ) by {
            assert(rv[i].commitment != rv[j].commitment);
        }
    }
    if spec_coin_split_family_fresh(rs, m, amount_per_split, split_count, change_value, out_count) {
        assert forall|kk2: int|
            0 <= kk2 < rv.len() implies !crate::storage::contains_commitment(
            rs,
            (#[trigger] rv[kk2]).commitment,
        ) by {
            assert(rv[kk2].commitment == spec_coin_split_commitment(
                m,
                amount_per_split,
                split_count,
                change_value,
                kk2,
            ));
        }
        assert forall|k1: int, k2: int|
            0 <= k1 < k2 < rv.len() implies (#[trigger] rv[k1]).commitment
            != (#[trigger] rv[k2]).commitment by {
            assert(rv[k1].commitment == spec_coin_split_commitment(
                m,
                amount_per_split,
                split_count,
                change_value,
                k1,
            ));
            assert(rv[k2].commitment == spec_coin_split_commitment(
                m,
                amount_per_split,
                split_count,
                change_value,
                k2,
            ));
        }
    }
}

/// Every output a selection run picks is the output of a spendable record of
/// the store, so encumbering the picked outputs cannot miss.
pub proof fn lemma_selected_inputs_unspent(
    rs: Seq<crate::storage::RecordV>,
    tip: Option<u64>,
    strategy: Option<UTXOSelectionStrategy>,
    amount: int,
    fee_per_gram: int,
    output_count: int,
)
    requires
        0 <= amount,
        0 <= fee_per_gram,
        0 <= output_count,
    ensures
        ({
            let (ordered, kind, k, total) = spec_selection(
                rs,
                tip,
                strategy,
                amount,
                fee_per_gram,
                output_count,
            );
            crate::storage::spec_all_inputs_unspent(rs, ordered.take(k))
        }),
{
    let pool = spec_outputs_with_status(rs, OutputStatus::Unspent);
    let filtered = spec_candidates(rs, tip);
    let strat = spec_chosen_strategy(strategy, tip, filtered, amount);
    let ordered = spec_ordered_candidates(strat, filtered);
    lemma_selection_bounds(rs, tip, strategy, amount, fee_per_gram, output_count);
    let (kind, k, total) = spec_scan(ordered, amount, fee_per_gram, output_count);
    let taken = ordered.take(k);
    assert forall|kk: int|
        0 <= kk < taken.len() implies exists|i: int|
        0 <= i < rs.len() && rs[i].output.commitment == (#[trigger] taken[kk]).commitment
            && rs[i].status == OutputStatus::Unspent by {
        let o = taken[kk];
        assert(ordered[kk] == o);
        assert(crate::storage::output_in(ordered, o));
        match strat {
            UTXOSelectionStrategy::Smallest => {},
            UTXOSelectionStrategy::MaturityThenSmallest => {
                crate::selection::lemma_mv_sorted_membership(filtered, o);
            },
            UTXOSelectionStrategy::Largest => {
                let j = choose|j: int| 0 <= j < ordered.len() && ordered[j] == o;
                assert(filtered[filtered.len() - 1 - j] == o);
            },
        }
        assert(crate::storage::output_in(filtered, o));
        crate::selection::lemma_mature_membership(spec_value_sorted(pool), tip, o);
        crate::storage::lemma_value_sorted_membership(pool, o);
        crate::storage::lemma_outputs_with_status_member(rs, OutputStatus::Unspent, o);
        let i = choose|i: int|
            0 <= i < rs.len() && (#[trigger] rs[i]).output == o && rs[i].status
                == OutputStatus::Unspent;
        assert(rs[i].output.commitment == o.commitment);
    }
}

/// The contract of preparing an outbound send: the funds and fee-guard
/// errors come exactly when selection or the guard says so; success comes
/// exactly when neither fires and the change output's commitment (derived
/// from the next spend key) is fresh; and on success the protocol record,
/// the store transition and the key-counter advance are pinned.
pub open spec fn spec_prepare_post(
    pre: OutputManagerService,
    post: OutputManagerService,
    tx_id: u64,
    amount: u64,
    fee_per_gram: u64,
    lock_height: Option<u64>,
    message: String,
    recipient_script: crate::script::TariScript,
    r: Result<crate::builder::SenderTransactionProtocol, OutputManagerError>,
) -> bool {
    let (ordered, kind, k, total) = spec_selection(
        pre.db@.records,
        pre.chain_tip,
        None,
        amount as int,
        fee_per_gram as int,
        1,
    );
    let fee_wc = spec_fee(fee_per_gram as int, 1, k, 2);
    let fee = if kind == SCAN_CHANGE {
        fee_wc
    } else {
        spec_fee(fee_per_gram as int, 1, k, 1)
    };
    let funds_err = kind == SCAN_SHORT && !(ordered.len() == 0 && amount == 0);
    let guard_err = !funds_err && pre.config.prevent_fee_gt_amount && fee > amount;
    let change_commitment = crate::crypto::spec_commitment(
        (total - amount - fee_wc) as u64,
        crate::key_manager::spec_next_spend_key(pre.master_key_manager@),
    );
    &&& (r == Err::<crate::builder::SenderTransactionProtocol, OutputManagerError>(
        OutputManagerError::FundsPending,
    ) || r == Err::<crate::builder::SenderTransactionProtocol, OutputManagerError>(
        OutputManagerError::NotEnoughFunds,
    ) <==> funds_err)
    &&& ((r matches Err(e) && e is BuildError) <==> guard_err)
    &&& (r is Ok <==> (!funds_err && !guard_err && (kind == SCAN_CHANGE
        ==> !crate::storage::contains_commitment(pre.db@.records, change_commitment))))
    &&& (r matches Ok(stp) ==> {
        let change_value = (total - amount - fee_wc) as u64;
        let change_uo = stp.change_output;
        &&& stp.tx_id == tx_id
        &&& stp.amount == amount
        &&& stp.fee_per_gram == fee_per_gram
        &&& stp.fee == fee
        &&& stp.lock_height == (match lock_height {
            Some(l) => l,
            None => 0,
        })
        &&& stp.message == message
        &&& stp.recipient_script@ == recipient_script@
        &&& views_of_outputs(stp.inputs@) == ordered.take(k)
        &&& (stp.change_output is Some <==> kind == SCAN_CHANGE)
        &&& (kind == SCAN_CHANGE ==> (stp.change_output matches Some(c) && {
            &&& c@.value == change_value
            &&& c@.spending_key == crate::key_manager::spec_next_spend_key(
                pre.master_key_manager@,
            )
            &&& c@.script_private_key == crate::key_manager::spec_next_script_key(
                pre.master_key_manager@,
            )
            &&& c@.script == crate::script::spec_nop_script()
            &&& c@.metadata_signature == crate::output::spec_final_signature_for(
                change_value,
                c@.spending_key,
                crate::script::spec_nop_script(),
                crate::output::OutputFeatures { flags: 0, maturity: 0 },
                c@.sender_offset_public_key,
            )
        }))
        &&& post.db@.records == crate::storage::spec_encumber_model(
            pre.db@.records,
            tx_id,
            ordered.take(k),
            (match change_uo {
                Some(c) => seq![
                    DbOutputV {
                        output: c@,
                        commitment: crate::crypto::spec_commitment(c@.value, c@.spending_key),
                        hash: crate::output::spec_output_hash(
                            c@.features,
                            crate::crypto::spec_commitment(c@.value, c@.spending_key),
                            c@.script,
                        ),
                    },
                ],
                None => Seq::empty(),
            }),
        )
        &&& (kind == SCAN_CHANGE ==> crate::key_manager::spec_next_key_transition(
            pre.master_key_manager@,
            post.master_key_manager@,
        ))
        &&& (kind != SCAN_CHANGE ==> post.master_key_manager == pre.master_key_manager)
    })
    &&& (r is Err ==> post.db@ == pre.db@)
}

impl OutputManagerService {
    /// Builds a fresh local output: value under the given spend key, the
    /// no-operation script satisfied by the script key, and a final metadata
    /// signature under a fresh sender offset key. Returns the output and the
    /// offset secret.
    fn make_local_output(
        amount: u64,
        spend_key: Vec<u8>,
        script_key: Vec<u8>,
        features: crate::output::OutputFeatures,
    ) -> (r: (crate::output::UnblindedOutput, Vec<u8>))
        ensures
            r.0@.value == amount,
            r.0@.spending_key == spend_key@,
            r.0@.features == features,
            r.0@.script == crate::script::spec_nop_script(),
            r.0@.input_data == crate::crypto::spec_public_key(script_key@),
            r.0@.script_private_key == script_key@,
            r.0@.sender_offset_public_key == crate::crypto::spec_public_key(r.1@),
            r.0@.metadata_signature == crate::output::spec_final_metadata_signature(
                amount,
                spend_key@,
                crate::script::spec_nop_script(),
                features,
                r.1@,
            ),
            r.0@.metadata_signature == crate::output::spec_final_signature_for(
                amount,
                spend_key@,
                crate::script::spec_nop_script(),
                features,
                r.0@.sender_offset_public_key,
            ),
            r.1@.len() == 32,
    {
        let sender_offset_private_key = crate::crypto::random_key_bytes();
        let sender_offset_public_key = crate::crypto::public_key_of(
            sender_offset_private_key.as_slice(),
        );
        let script = crate::script::TariScript::nop();
        let script_public_key = crate::crypto::public_key_of(script_key.as_slice());
        let metadata_signature = crate::output::TransactionOutput::create_final_metadata_signature(
            amount,
            spend_key.as_slice(),
            &script,
            features,
            sender_offset_private_key.as_slice(),
        );
        let output = crate::output::UnblindedOutput::new(
            amount,
            spend_key,
            features,
            script,
            crate::script::ExecutionStack::for_public_key(&script_public_key),
            script_key,
            sender_offset_public_key,
            metadata_signature,
        );
        (output, sender_offset_private_key)
    }

    /// Estimates the fee for sending an amount at a fee rate with the given
    /// kernel and output counts: the outputs that selection would pick, priced
    /// with the minimum-fee floor.
    pub fn fee_estimate(
        &self,
        amount: u64,
        fee_per_gram: u64,
        num_kernels: u64,
        num_outputs: u64,
    ) -> (r: Result<u64, OutputManagerError>)
        requires
            self.wf(),
            num_outputs <= u64::MAX - 2,
            spec_fee(
                fee_per_gram as int,
                1,
                spec_outputs_with_status(self.db@.records, OutputStatus::Unspent).len() as int + 1,
                num_outputs as int + 2,
            ) <= u64::MAX,
            spec_fee(
                fee_per_gram as int,
                num_kernels as int,
                spec_outputs_with_status(self.db@.records, OutputStatus::Unspent).len() as int + 1,
                num_outputs as int + 2,
            ) <= u64::MAX,
        ensures
            ({
                let (ordered, kind, k, total) = spec_selection(
                    self.db@.records,
                    self.chain_tip,
                    None,
                    amount as int,
                    fee_per_gram as int,
                    num_outputs as int,
                );
                &&& (r is Ok <==> (kind != SCAN_SHORT || (ordered.len() == 0 && amount == 0)))
                &&& (r matches Ok(f) ==> f == spec_fee_with_minimum(
                    fee_per_gram as int,
                    num_kernels as int,
                    k,
                    num_outputs as int,
                ))
                &&& (r is Err ==> (r == Err::<u64, OutputManagerError>(
                    OutputManagerError::FundsPending,
                ) || r == Err::<u64, OutputManagerError>(OutputManagerError::NotEnoughFunds)))
            }),
    {
        match self.select_utxos(amount, fee_per_gram, num_outputs, None) {
            Ok((utxos, _, _)) => {
                proof {
                    lemma_selection_bounds(
                        self.db@.records,
                        self.chain_tip,
                        None,
                        amount as int,
                        fee_per_gram as int,
                        num_outputs as int,
                    );
                    let (ordered, kind, k, total) = spec_selection(
                        self.db@.records,
                        self.chain_tip,
                        None,
                        amount as int,
                        fee_per_gram as int,
                        num_outputs as int,
                    );
                    assert(utxos@.len() == k);
                    lemma_fee_monotone(
                        fee_per_gram as int,
                        num_kernels as int,
                        k,
                        num_outputs as int,
                        spec_outputs_with_status(self.db@.records, OutputStatus::Unspent).len() as int
                            + 1,
                        num_outputs as int + 2,
                    );
                }
                let fee = Fee::calculate_with_minimum(
                    fee_per_gram,
                    num_kernels,
                    utxos.len() as u64,
                    num_outputs,
                );
                Ok(fee)
            },
            Err(e) => Err(e),
        }
    }

    /// Prepares an outbound interactive transaction: selects inputs for the
    /// amount, fixes the fee, builds a change output when one is owed, and
    /// atomically encumbers inputs and change against the transaction.
    #[allow(clippy::too_many_arguments)]
    pub fn prepare_transaction_to_send(
        &mut self,
        tx_id: u64,
        amount: u64,
        fee_per_gram: u64,
        lock_height: Option<u64>,
        message: String,
        recipient_script: crate::script::TariScript,
    ) -> (r: Result<crate::builder::SenderTransactionProtocol, OutputManagerError>)
        requires
            old(self).wf(),
            old(self).master_key_manager@.next_index < u64::MAX,
            2 * sum_values(old(self).db@.records) <= u64::MAX,
            spec_fee(
                fee_per_gram as int,
                1,
                spec_outputs_with_status(old(self).db@.records, OutputStatus::Unspent).len() as int
                    + 1,
                3,
            ) <= u64::MAX,
        ensures
            final(self).wf(),
            final(self).config == old(self).config,
            spec_prepare_post(
                *old(self),
                *final(self),
                tx_id,
                amount,
                fee_per_gram,
                lock_height,
                message,
                recipient_script,
                r,
            ),
    {
        let ghost rs = old(self).db@.records;
        let ghost tip = old(self).chain_tip;
        let selection = self.select_utxos(amount, fee_per_gram, 1, None);
        proof {
            lemma_selection_bounds(rs, tip, None, amount as int, fee_per_gram as int, 1int);
        }
        let (utxos, change_required, total) = match selection {
            Ok(t) => t,
            Err(e) => {
                return Err(e);
            },
        };
        let k = utxos.len();
        proof {
            lemma_fee_monotone(
                fee_per_gram as int,
                1,
                k as int,
                2,
                spec_outputs_with_status(rs, OutputStatus::Unspent).len() as int + 1,
                3,
            );
            lemma_fee_monotone(
                fee_per_gram as int,
                1,
                k as int,
                1,
                spec_outputs_with_status(rs, OutputStatus::Unspent).len() as int + 1,
                3,
            );
        }
        let fee_without_change = Fee::calculate(fee_per_gram, 1, k as u64, 1);
        let fee_with_change = Fee::calculate(fee_per_gram, 1, k as u64, 2);
        let fee = if change_required {
            fee_with_change
        } else {
            fee_without_change
        };
        if self.config.prevent_fee_gt_amount && fee > amount {
            return Err(
                OutputManagerError::BuildError(
                    <String as vstd::string::StringExecFns>::from_str("fee is greater than amount"),
                ),
            );
        }
        let offset = crate::crypto::random_key_bytes();
        let private_nonce = crate::crypto::random_key_bytes();

        let mut change_output: Option<crate::output::UnblindedOutput> = None;
        let mut change_vec: Vec<DbUnblindedOutput> = Vec::new();
        if change_required {
            let (spend_key, script_key) = self.master_key_manager.get_next_spend_and_script_key();
            let change_value = total - amount - fee_with_change;
            let (uo, _offset_secret) = Self::make_local_output(
                change_value,
                spend_key,
                script_key,
                crate::output::OutputFeatures::default_features(),
            );
            change_vec.push(crate::output::DbUnblindedOutput::from_unblinded_output(uo.clone()));
            change_output = Some(uo);
        }
        proof {
            crate::selection::lemma_sum_outputs_nonneg(views_of_outputs(change_vec@));
            if change_required {
                assert(views_of_outputs(change_vec@) =~= seq![change_vec@[0]@]);
                crate::selection::lemma_sum_outputs_singleton(change_vec@[0]@);
            } else {
                assert(views_of_outputs(change_vec@) =~= Seq::<DbOutputV>::empty());
            }
            crate::storage::lemma_sum_values_nonneg(rs);
            lemma_selected_inputs_unspent(rs, tip, None, amount as int, fee_per_gram as int, 1int);
            assert(crate::storage::spec_all_inputs_unspent(rs, views_of_outputs(utxos@)));
        }
        let ghost change_commitment = crate::crypto::spec_commitment(
            (total - amount - fee_with_change) as u64,
            crate::key_manager::spec_next_spend_key(old(self).master_key_manager@),
        );
        proof {
            if change_required {
                assert(views_of_outputs(change_vec@)[0].commitment == change_commitment);
            }
        }
        match self.db.encumber_outputs(tx_id, &utxos, &change_vec) {
            Ok(()) => {
                proof {
                    if change_required {
                        assert(!crate::storage::contains_commitment(rs, change_commitment));
                    }
                }
                let lock = match lock_height {
                    Some(l) => l,
                    None => 0,
                };
                let stp = crate::builder::SenderTransactionProtocol {
                    tx_id,
                    amount,
                    fee_per_gram,
                    fee,
                    lock_height: lock,
                    offset,
                    private_nonce,
                    message,
                    recipient_script,
                    change_output,
                    inputs: utxos,
                };
                Ok(stp)
            },
            Err(e) => {
                proof {
                    assert(change_required);
                    assert(crate::storage::contains_commitment(rs, change_commitment));
                }
                Err(OutputManagerError::from_storage(e))
            },
        }
    }

    /// Builds the coinbase transaction for a block height: reward plus fees
    /// under the deterministic coinbase keys for that height. Any pending
    /// coinbase already recorded at the height is replaced, so after the call
    /// exactly one pending coinbase exists there.
    pub fn get_coinbase_transaction(
        &mut self,
        tx_id: u64,
        reward: u64,
        fees: u64,
        block_height: u64,
    ) -> (r: Result<crate::builder::Transaction, OutputManagerError>)
        requires
            old(self).wf(),
            reward + fees <= u64::MAX,
            block_height + COINBASE_LOCK_HEIGHT <= u64::MAX,
            sum_values(old(self).db@.records) + reward + fees <= u64::MAX,
        ensures
            final(self).wf(),
            final(self).master_key_manager == old(self).master_key_manager,
            final(self).config == old(self).config,
            r is Ok,
            crate::storage::count_matching(
                final(self).db@.records,
                crate::storage::spec_coinbase_at_height_pred(block_height),
            ) == 1,
            ({
                let amount = (reward + fees) as u64;
                let spend_key = crate::crypto::spec_derived_key(
                    old(self).master_key_manager@.master,
                    crate::key_manager::BRANCH_COINBASE_SPEND,
                    block_height,
                );
                let last = final(self).db@.records.last();
                let survivors = crate::storage::spec_remove_by_commitment(
                    crate::storage::spec_clear_coinbase_model(old(self).db@.records, block_height),
                    crate::crypto::spec_commitment(amount, spend_key),
                );
                &&& final(self).db@.records.len() == survivors.len() + 1
                &&& (forall|j: int|
                    0 <= j < survivors.len() ==> #[trigger] final(self).db@.records[j]
                        == crate::storage::spec_confirm_record(survivors[j], tx_id))
                &&& last.status == OutputStatus::PendingCoinbase(block_height)
                &&& last.tx_id == Some(tx_id)
                &&& last.abandoned == false
                &&& last.output.output.value == amount
                &&& last.output.output.spending_key == spend_key
                &&& last.output.output.features == crate::output::OutputFeatures {
                    flags: crate::output::FLAG_COINBASE,
                    maturity: (block_height + COINBASE_LOCK_HEIGHT) as u64,
                }
                &&& last.output.commitment == crate::crypto::spec_commitment(amount, spend_key)
                &&& (r matches Ok(tx) ==> {
                    &&& tx@.kernels.len() == 1
                    &&& tx@.kernels[0].features == crate::builder::KERNEL_FEATURES_COINBASE
                    &&& tx@.kernels[0].fee == 0
                    &&& tx@.kernels[0].lock_height == block_height
                    &&& tx@.inputs.len() == 0
                    &&& tx@.outputs.len() == 1
                    &&& tx@.outputs[0].commitment == crate::crypto::spec_commitment(
                        amount,
                        spend_key,
                    )
                    &&& tx@.outputs[0].features == crate::output::OutputFeatures {
                        flags: crate::output::FLAG_COINBASE,
                        maturity: (block_height + COINBASE_LOCK_HEIGHT) as u64,
                    }
                })
            }),
    {
        let ghost pred = crate::storage::spec_coinbase_at_height_pred(block_height);
        let amount = reward + fees;
        let (spend_key, script_key) = self
            .master_key_manager
            .get_coinbase_spend_and_script_key_for_height(block_height);
        let features = crate::output::OutputFeatures::create_coinbase(
            block_height + COINBASE_LOCK_HEIGHT,
        );
        let (uo, _offset_secret) = Self::make_local_output(
            amount,
            spend_key,
            script_key,
            features,
        );
        let dbo = crate::output::DbUnblindedOutput::from_unblinded_output(uo.clone());
        let commitment = crate::crypto::clone_bytes(&dbo.commitment);

        let ghost rs0 = self.db@.records;
        // Replace any pending coinbase already recorded at this height.
        let cleared = self.db.clear_pending_coinbase_transaction_at_block_height(block_height);
        let ghost rs1 = self.db@.records;
        proof {
            match cleared {
                Ok(()) => {
                    crate::storage::lemma_clear_coinbase_count_zero(rs0, block_height);
                    crate::storage::lemma_clear_coinbase_model_wf(rs0, block_height);
                },
                Err(_) => {
                    crate::storage::lemma_count_zero_iff_none(rs1, pred);
                    crate::storage::lemma_clear_coinbase_noop(rs0, block_height);
                },
            }
            assert(rs1 == crate::storage::spec_clear_coinbase_model(rs0, block_height));
            assert(crate::storage::count_matching(rs1, pred) == 0);
            crate::storage::lemma_sum_values_nonneg(rs0);
        }
        // Drop any output that already carries this commitment: it holds no
        // information the replacement lacks.
        let removed = self.db.remove_output_by_commitment(commitment.as_slice());
        let ghost rs2 = self.db@.records;
        proof {
            match removed {
                Ok(()) => {
                    let i = choose|i: int|
                        0 <= i < rs1.len() && (#[trigger] rs1[i]).output.commitment == commitment@
                            && rs2 == rs1.remove(i);
                    crate::storage::lemma_count_matching_remove_le(rs1, pred, i);
                    crate::storage::lemma_count_matching_nonneg(rs2, pred);
                    crate::storage::lemma_sum_values_remove(rs1, i);
                    crate::storage::lemma_remove_by_commitment_eq(rs1, commitment@, i);
                },
                Err(_) => {
                    crate::storage::lemma_remove_by_commitment_noop(rs1, commitment@);
                },
            }
            assert(rs2 == crate::storage::spec_remove_by_commitment(rs1, commitment@));
            assert(crate::storage::count_matching(rs2, pred) == 0);
            assert(!crate::storage::contains_commitment(rs2, commitment@));
            crate::storage::lemma_sum_values_nonneg(rs2);
        }
        let added = self.db.add_output_to_be_received(tx_id, dbo, Some(block_height));
        let ghost rs3 = self.db@.records;
        proof {
            assert(added is Ok);
            crate::storage::lemma_count_matching_push(
                rs2,
                pred,
                rs3.last(),
            );
            assert(crate::storage::count_matching(rs3, pred) == 1);
        }
        match added {
            Ok(()) => {},
            Err(e) => {
                proof {
                    assert(false);
                }
                return Err(OutputManagerError::from_storage(e));
            },
        }
        self.db.confirm_encumbered_outputs(tx_id);
        proof {
            let f = |rec: crate::storage::RecordV| crate::storage::spec_confirm_record(rec, tx_id);
            assert(forall|rec: crate::storage::RecordV| pred(#[trigger] f(rec)) == pred(rec));
            crate::storage::lemma_count_matching_map(rs3, f, pred);
            assert(self.db@.records.last() == f(rs3.last())) by {
                assert(self.db@.records[rs3.len() - 1] == f(rs3[rs3.len() - 1]));
            }
            assert forall|j: int| 0 <= j < rs2.len() implies #[trigger] self.db@.records[j] == f(
                rs2[j],
            ) by {
                assert(self.db@.records[j] == f(rs3[j]));
                assert(rs3[j] == rs2[j]);
            }
        }

        // Assemble the coinbase transaction itself.
        let offset = crate::crypto::random_key_bytes();
        let nonce = crate::crypto::random_key_bytes();
        let sig = crate::builder::excess_sig(
            offset.as_slice(),
            nonce.as_slice(),
            0,
            block_height,
            crate::builder::KERNEL_FEATURES_COINBASE,
        );
        let kernel = crate::builder::TransactionKernel {
            features: crate::builder::KERNEL_FEATURES_COINBASE,
            fee: 0,
            lock_height: block_height,
            excess_sig: sig,
        };
        let rewind = self.master_key_manager.rewind_data();
        let chain_output = uo.to_transaction_output(
            rewind.rewind_key.as_slice(),
            rewind.blinding_key.as_slice(),
        );
        let mut outputs: Vec<crate::output::TransactionOutput> = Vec::new();
        outputs.push(chain_output);
        let mut kernels: Vec<crate::builder::TransactionKernel> = Vec::new();
        kernels.push(kernel);
        let tx = crate::builder::Transaction { inputs: Vec::new(), outputs, kernels, offset };
        proof {
            assert(tx@.kernels =~= seq![tx.kernels@[0]@]);
            assert(tx@.outputs =~= seq![tx.outputs@[0]@]);
            assert(tx@.inputs =~= Seq::<Seq<u8>>::empty());
        }
        Ok(tx)
    }

    /// Assembles a finalized transaction: the inputs' commitments, the
    /// outputs in their on-chain form with proofs rewindable by this wallet,
    /// and a single kernel.
    fn assemble_transaction(
        &self,
        inputs: &Vec<DbUnblindedOutput>,
        outputs: &Vec<crate::output::UnblindedOutput>,
        fee: u64,
        lock_height: u64,
        kernel_features: u8,
    ) -> (tx: crate::builder::Transaction)
        requires
            forall|j: int| 0 <= j < outputs@.len() ==> (#[trigger] outputs@[j]@).spending_key.len()
                == 32,
        ensures
            tx@.inputs == views_of_outputs(inputs@).map_values(|o: DbOutputV| o.commitment),
            tx@.outputs.len() == outputs@.len(),
            forall|j: int|
                0 <= j < outputs@.len() ==> {
                    let o = #[trigger] tx@.outputs[j];
                    &&& o.commitment == crate::crypto::spec_commitment(
                        outputs@[j]@.value,
                        outputs@[j]@.spending_key,
                    )
                    &&& o.features == outputs@[j]@.features
                    &&& o.script == outputs@[j]@.script
                    &&& o.sender_offset_public_key == outputs@[j]@.sender_offset_public_key
                    &&& o.metadata_signature == outputs@[j]@.metadata_signature
                },
            tx@.kernels.len() == 1,
            tx@.kernels[0].features == kernel_features,
            tx@.kernels[0].fee == fee,
            tx@.kernels[0].lock_height == lock_height,
    {
        let offset = crate::crypto::random_key_bytes();
        let nonce = crate::crypto::random_key_bytes();
        let sig = crate::builder::excess_sig(
            offset.as_slice(),
            nonce.as_slice(),
            fee,
            lock_height,
            kernel_features,
        );
        let kernel = crate::builder::TransactionKernel {
            features: kernel_features,
            fee,
            lock_height,
            excess_sig: sig,
        };
        let rewind = self.master_key_manager.rewind_data();

        let mut input_commitments: Vec<Vec<u8>> = Vec::new();
        let n = inputs.len();
        let mut i: usize = 0;
        while i < n
            invariant
                0 <= i <= n,
                n == inputs@.len(),
                input_commitments@.len() == i,
                forall|j: int|
                    0 <= j < i ==> input_commitments@.map_values(|c: Vec<u8>| c@)[j]
                        == views_of_outputs(inputs@)[j].commitment,
            decreases n - i,
        {
            let c = crate::crypto::clone_bytes(&inputs[i].commitment);
            let ghost prev = input_commitments@;
            input_commitments.push(c);
            proof {
                assert(input_commitments@ =~= prev.push(input_commitments@[i as int]));
            }
            i += 1;
        }
        proof {
            assert(input_commitments@.map_values(|c: Vec<u8>| c@) =~= views_of_outputs(
                inputs@,
            ).map_values(|o: DbOutputV| o.commitment));
        }

        let mut chain_outputs: Vec<crate::output::TransactionOutput> = Vec::new();
        let m = outputs.len();
        let mut j: usize = 0;
        while j < m
            invariant
                0 <= j <= m,
                m == outputs@.len(),
                forall|jj: int| 0 <= jj < outputs@.len() ==> (#[trigger] outputs@[jj]@).spending_key.len()
                    == 32,
                chain_outputs@.len() == j,
                forall|jj: int|
                    0 <= jj < j ==> {
                        let o = #[trigger] chain_outputs@[jj]@;
                        &&& o.commitment == crate::crypto::spec_commitment(
                            outputs@[jj]@.value,
                            outputs@[jj]@.spending_key,
                        )
                        &&& o.features == outputs@[jj]@.features
                        &&& o.script == outputs@[jj]@.script
                        &&& o.sender_offset_public_key == outputs@[jj]@.sender_offset_public_key
                        &&& o.metadata_signature == outputs@[jj]@.metadata_signature
                    },
            decreases m - j,
        {
            proof {
                assert(outputs@[j as int]@.spending_key.len() == 32);
            }
            let co = outputs[j].to_transaction_output(
                rewind.rewind_key.as_slice(),
                rewind.blinding_key.as_slice(),
            );
            chain_outputs.push(co);
            j += 1;
        }

        let mut kernels: Vec<crate::builder::TransactionKernel> = Vec::new();
        kernels.push(kernel);
        let tx = crate::builder::Transaction {
            inputs: input_commitments,
            outputs: chain_outputs,
            kernels,
            offset,
        };
        proof {
            assert(tx@.kernels =~= seq![tx.kernels@[0]@]);
        }
        tx
    }

    /// Builds and finalizes a payment back to this wallet: inputs selected
    /// for the amount, one fresh output, and change when owed; everything is
    /// encumbered and confirmed in-process. Returns the fee and the
    /// finalized transaction.
    pub fn create_pay_to_self_transaction(
        &mut self,
        tx_id: u64,
        amount: u64,
        fee_per_gram: u64,
        lock_height: Option<u64>,
    ) -> (r: Result<(u64, crate::builder::Transaction), OutputManagerError>)
        requires
            old(self).wf(),
            old(self).master_key_manager@.next_index < u64::MAX - 1,
            2 * sum_values(old(self).db@.records) <= u64::MAX,
            spec_fee(
                fee_per_gram as int,
                1,
                spec_outputs_with_status(old(self).db@.records, OutputStatus::Unspent).len() as int
                    + 1,
                3,
            ) <= u64::MAX,
        ensures
            final(self).wf(),
            final(self).config == old(self).config,
            spec_pay_to_self_post(
                *old(self),
                *final(self),
                tx_id,
                amount,
                fee_per_gram,
                lock_height,
                r,
            ),
    {
        let ghost rs = old(self).db@.records;
        let ghost tip = old(self).chain_tip;
        let selection = self.select_utxos(amount, fee_per_gram, 1, None);
        proof {
            lemma_selection_bounds(rs, tip, None, amount as int, fee_per_gram as int, 1int);
        }
        let (utxos, change_required, total) = match selection {
            Ok(t) => t,
            Err(e) => {
                return Err(e);
            },
        };
        let k = utxos.len();
        proof {
            lemma_fee_monotone(
                fee_per_gram as int,
                1,
                k as int,
                2,
                spec_outputs_with_status(rs, OutputStatus::Unspent).len() as int + 1,
                3,
            );
            lemma_fee_monotone(
                fee_per_gram as int,
                1,
                k as int,
                1,
                spec_outputs_with_status(rs, OutputStatus::Unspent).len() as int + 1,
                3,
            );
        }
        let fee_without_change = Fee::calculate(fee_per_gram, 1, k as u64, 1);
        let fee_with_change = Fee::calculate(fee_per_gram, 1, k as u64, 2);
        let fee = if change_required {
            fee_with_change
        } else {
            fee_without_change
        };
        if self.config.prevent_fee_gt_amount && fee > amount {
            return Err(
                OutputManagerError::BuildError(
                    <String as vstd::string::StringExecFns>::from_str("fee is greater than amount"),
                ),
            );
        }

        let (spend_key, script_key) = self.master_key_manager.get_next_spend_and_script_key();
        let (primary, _offset_secret) = Self::make_local_output(
            amount,
            spend_key,
            script_key,
            crate::output::OutputFeatures::default_features(),
        );
        let mut outputs: Vec<crate::output::UnblindedOutput> = Vec::new();
        let mut outputs_db: Vec<DbUnblindedOutput> = Vec::new();
        outputs_db.push(crate::output::DbUnblindedOutput::from_unblinded_output(primary.clone()));
        outputs.push(primary);
        if change_required {
            let (change_spend, change_script) = self.master_key_manager.get_next_spend_and_script_key();
            let change_value = total - amount - fee_with_change;
            let (change_uo, _cs) = Self::make_local_output(
                change_value,
                change_spend,
                change_script,
                crate::output::OutputFeatures::default_features(),
            );
            outputs_db.push(
                crate::output::DbUnblindedOutput::from_unblinded_output(change_uo.clone()),
            );
            outputs.push(change_uo);
        }
        proof {
            let (ordered, kind, kk, tot) = spec_selection(
                rs,
                tip,
                None,
                amount as int,
                fee_per_gram as int,
                1,
            );
            crate::fee::lemma_fee_nonneg(fee_per_gram as int, 1, kk, 1);
            crate::fee::lemma_fee_nonneg(fee_per_gram as int, 1, kk, 2);
            if change_required {
                assert(views_of_outputs(outputs_db@) =~= seq![outputs_db@[0]@, outputs_db@[1]@]);
                assert(views_of_outputs(outputs_db@).drop_last() =~= seq![outputs_db@[0]@]);
                crate::selection::lemma_sum_outputs_singleton(outputs_db@[0]@);
                assert(sum_outputs(views_of_outputs(outputs_db@)) <= tot);
            } else {
                assert(views_of_outputs(outputs_db@) =~= seq![outputs_db@[0]@]);
                crate::selection::lemma_sum_outputs_singleton(outputs_db@[0]@);
                assert(sum_outputs(views_of_outputs(outputs_db@)) <= tot);
            }
            crate::storage::lemma_sum_values_nonneg(rs);
            lemma_selected_inputs_unspent(rs, tip, None, amount as int, fee_per_gram as int, 1int);
            assert(crate::storage::spec_all_inputs_unspent(rs, views_of_outputs(utxos@)));
        }
        let ghost c0 = crate::crypto::spec_commitment(
            amount,
            crate::key_manager::spec_next_spend_key(old(self).master_key_manager@),
        );
        let ghost c1 = crate::crypto::spec_commitment(
            (total - amount - fee_with_change) as u64,
            crate::crypto::spec_derived_key(
                old(self).master_key_manager@.master,
                crate::key_manager::BRANCH_SPEND,
                (old(self).master_key_manager@.next_index + 1) as u64,
            ),
        );
        proof {
            assert(views_of_outputs(outputs_db@)[0].commitment == c0);
            if change_required {
                assert(views_of_outputs(outputs_db@)[1].commitment == c1);
            }
        }
        let ghost recv_views = views_of_outputs(outputs_db@);
        match self.db.encumber_outputs(tx_id, &utxos, &outputs_db) {
            Ok(()) => {
                proof {
                    assert(!crate::storage::contains_commitment(rs, c0));
                    if change_required {
                        assert(!crate::storage::contains_commitment(rs, c1));
                        assert(c1 != c0);
                    }
                }
            },
            Err(e) => {
                proof {
                    let fresh = !crate::storage::contains_commitment(rs, c0) && (change_required
                        ==> !crate::storage::contains_commitment(rs, c1) && c1 != c0);
                    assert(!fresh) by {
                        if fresh {
                            assert(crate::storage::spec_all_receives_fresh(rs, recv_views)) by {
                                assert(forall|kk: int|
                                    0 <= kk < recv_views.len()
                                        ==> !crate::storage::contains_commitment(
                                        rs,
                                        (#[trigger] recv_views[kk]).commitment,
                                    ));
                                assert(forall|k1: int, k2: int|
                                    0 <= k1 < k2 < recv_views.len()
                                        ==> (#[trigger] recv_views[k1]).commitment
                                        != (#[trigger] recv_views[k2]).commitment);
                            }
                        }
                    }
                }
                return Err(OutputManagerError::from_storage(e));
            },
        }
        let ghost rs1 = self.db@.records;
        self.db.confirm_encumbered_outputs(tx_id);
        proof {
            let (ordered, kind, kk, tot) = spec_selection(
                rs,
                tip,
                None,
                amount as int,
                fee_per_gram as int,
                1,
            );
            let f = |rec: crate::storage::RecordV| crate::storage::spec_confirm_record(rec, tx_id);
            assert forall|j: int|
                0 <= j < rs.len() implies #[trigger] self.db@.records[j]
                == crate::storage::spec_confirm_record(
                crate::storage::spec_encumber_record(rs[j], tx_id, ordered.take(kk)),
                tx_id,
            ) by {
                assert(self.db@.records[j] == f(rs1[j]));
                assert(rs1[j] == crate::storage::spec_encumber_record(
                    rs[j],
                    tx_id,
                    views_of_outputs(utxos@),
                ));
            }
            assert(self.db@.records[rs.len() as int] == f(rs1[rs.len() as int]));
            assert(rs1[rs.len() as int] == crate::storage::spec_short_term_record(
                recv_views[0],
                tx_id,
            ));
            if change_required {
                assert(self.db@.records[rs.len() as int + 1] == f(rs1[rs.len() as int + 1]));
                assert(rs1[rs.len() as int + 1] == crate::storage::spec_short_term_record(
                    recv_views[1],
                    tx_id,
                ));
            }
        }
        let lock = match lock_height {
            Some(l) => l,
            None => 0,
        };
        let tx = self.assemble_transaction(
            &utxos,
            &outputs,
            fee,
            lock,
            crate::builder::KERNEL_FEATURES_EMPTY,
        );
        Ok((fee, tx))
    }

    /// Splits funds into equal outputs plus change: selects inputs covering
    /// `split_count` outputs of `amount_per_split` under the largest-first
    /// strategy, builds every output with fresh keys, and finalizes the
    /// transaction in-process. Returns the fresh transaction identifier, the
    /// transaction, its fee and the total of the selected inputs.
    #[verifier::rlimit(100)]
    #[verifier::spinoff_prover]
    pub fn create_coin_split(
        &mut self,
        amount_per_split: u64,
        split_count: u64,
        fee_per_gram: u64,
        lock_height: Option<u64>,
    ) -> (r: Result<(u64, crate::builder::Transaction, u64, u64), OutputManagerError>)
        requires
            old(self).wf(),
            amount_per_split * split_count <= u64::MAX,
            split_count <= u64::MAX - 2,
            old(self).master_key_manager@.next_index + split_count + 1 <= u64::MAX,
            2 * sum_values(old(self).db@.records) <= u64::MAX,
            spec_fee(
                fee_per_gram as int,
                1,
                spec_outputs_with_status(old(self).db@.records, OutputStatus::Unspent).len() as int
                    + 1,
                split_count as int + 2,
            ) <= u64::MAX,
        ensures
            final(self).wf(),
            final(self).config == old(self).config,
            spec_coin_split_post(
                *old(self),
                *final(self),
                amount_per_split,
                split_count,
                fee_per_gram,
                lock_height,
                r,
            ),
    {
        let ghost rs = old(self).db@.records;
        let ghost tip = old(self).chain_tip;
        let ghost m0 = old(self).master_key_manager@;
        let total_split_amount = amount_per_split * split_count;
        let selection = self.select_utxos(
            total_split_amount,
            fee_per_gram,
            split_count,
            Some(UTXOSelectionStrategy::Largest),
        );
        proof {
            lemma_selection_bounds(
                rs,
                tip,
                Some(UTXOSelectionStrategy::Largest),
                total_split_amount as int,
                fee_per_gram as int,
                split_count as int,
            );
        }
        let (utxos, change_required, total) = match selection {
            Ok(t) => t,
            Err(e) => {
                return Err(e);
            },
        };
        let k = utxos.len();
        let output_count: u64 = if change_required {
            split_count + 1
        } else {
            split_count
        };
        proof {
            lemma_fee_monotone(
                fee_per_gram as int,
                1,
                k as int,
                output_count as int,
                spec_outputs_with_status(rs, OutputStatus::Unspent).len() as int + 1,
                split_count as int + 2,
            );
            crate::fee::lemma_fee_nonneg(fee_per_gram as int, 1, k as int, output_count as int);
            crate::fee::lemma_fee_nonneg(fee_per_gram as int, 1, k as int, split_count as int);
        }
        let fee = Fee::calculate(fee_per_gram, 1, k as u64, output_count);
        // The selected total must cover the fee on top of the split total;
        // selection alone does not guarantee that on the empty edge.
        if (total as u128) < (fee as u128) + (total_split_amount as u128) {
            return Err(OutputManagerError::NotEnoughFunds);
        }
        let tx_id = crate::crypto::random_u64();

        let ghost db0 = self.db@;
        let mut outputs: Vec<crate::output::UnblindedOutput> = Vec::new();
        let mut outputs_db: Vec<DbUnblindedOutput> = Vec::new();
        let mut j: u64 = 0;
        while j < split_count
            invariant
                0 <= j <= split_count,
                self.db@ == db0,
                self.config == old(self).config,
                self.chain_tip == tip,
                self.master_key_manager@.master == m0.master,
                self.master_key_manager@.next_index == m0.next_index + j,
                m0.next_index + split_count + 1 <= u64::MAX,
                outputs@.len() == j,
                outputs_db@.len() == j,
                sum_outputs(views_of_outputs(outputs_db@)) == j * amount_per_split,
                forall|jj: int|
                    0 <= jj < j ==> {
                        &&& (#[trigger] outputs_db@[jj]@).output.value == amount_per_split
                        &&& outputs_db@[jj]@.output == outputs@[jj]@
                        &&& outputs_db@[jj]@.output.spending_key == crate::crypto::spec_derived_key(
                            m0.master,
                            crate::key_manager::BRANCH_SPEND,
                            (m0.next_index + jj) as u64,
                        )
                        &&& outputs_db@[jj]@.output.script_private_key
                            == crate::crypto::spec_derived_key(
                            m0.master,
                            crate::key_manager::BRANCH_SCRIPT,
                            (m0.next_index + jj) as u64,
                        )
                        &&& outputs_db@[jj]@.commitment == crate::crypto::spec_commitment(
                            amount_per_split,
                            crate::crypto::spec_derived_key(
                                m0.master,
                                crate::key_manager::BRANCH_SPEND,
                                (m0.next_index + jj) as u64,
                            ),
                        )
                        &&& outputs_db@[jj]@.output.script == crate::script::spec_nop_script()
                        &&& outputs_db@[jj]@.output.metadata_signature
                            == crate::output::spec_final_signature_for(
                            amount_per_split,
                            outputs_db@[jj]@.output.spending_key,
                            crate::script::spec_nop_script(),
                            crate::output::OutputFeatures { flags: 0, maturity: 0 },
                            outputs_db@[jj]@.output.sender_offset_public_key,
                        )
                    },
                forall|jj: int|
                    0 <= jj < j ==> (#[trigger] outputs@[jj]@).spending_key.len() == 32,
            decreases split_count - j,
        {
            let (spend_key, script_key) = self.master_key_manager.get_next_spend_and_script_key();
            let (uo, _os) = Self::make_local_output(
                amount_per_split,
                spend_key,
                script_key,
                crate::output::OutputFeatures::default_features(),
            );
            let dbo = crate::output::DbUnblindedOutput::from_unblinded_output(uo.clone());
            let ghost prev = views_of_outputs(outputs_db@);
            outputs_db.push(dbo);
            outputs.push(uo);
            proof {
                assert(views_of_outputs(outputs_db@) =~= prev.push(outputs_db@[j as int]@));
                crate::storage::lemma_sum_values_push(Seq::empty(), crate::storage::RecordV {
                    output: outputs_db@[j as int]@,
                    status: OutputStatus::Unspent,
                    tx_id: None,
                    abandoned: false,
                });
                assert(sum_outputs(prev.push(outputs_db@[j as int]@)) == sum_outputs(prev)
                    + amount_per_split) by {
                    assert(prev.push(outputs_db@[j as int]@).drop_last() =~= prev);
                }
                assert((j + 1) * amount_per_split == j * amount_per_split + amount_per_split)
                    by (nonlinear_arith);
            }
            j += 1;
        }
        if change_required {
            let (spend_key, script_key) = self.master_key_manager.get_next_spend_and_script_key();
            let change_value = total - fee - total_split_amount;
            let (uo, _os) = Self::make_local_output(
                change_value,
                spend_key,
                script_key,
                crate::output::OutputFeatures::default_features(),
            );
            let dbo = crate::output::DbUnblindedOutput::from_unblinded_output(uo.clone());
            let ghost prev = views_of_outputs(outputs_db@);
            outputs_db.push(dbo);
            outputs.push(uo);
            proof {
                assert(views_of_outputs(outputs_db@) =~= prev.push(
                    outputs_db@[split_count as int]@,
                ));
                assert(sum_outputs(views_of_outputs(outputs_db@)) == sum_outputs(prev)
                    + change_value) by {
                    assert(prev.push(outputs_db@[split_count as int]@).drop_last() =~= prev);
                }
                assert(outputs_db@[split_count as int]@.output.spending_key
                    == crate::crypto::spec_derived_key(
                    m0.master,
                    crate::key_manager::BRANCH_SPEND,
                    (m0.next_index + split_count) as u64,
                ));
                assert(outputs_db@[split_count as int]@.commitment
                    == crate::crypto::spec_commitment(
                    change_value,
                    crate::crypto::spec_derived_key(
                        m0.master,
                        crate::key_manager::BRANCH_SPEND,
                        (m0.next_index + split_count) as u64,
                    ),
                ));
                assert(outputs_db@[split_count as int]@.output.script
                    == crate::script::spec_nop_script());
                assert(outputs_db@[split_count as int]@.output.metadata_signature
                    == crate::output::spec_final_signature_for(
                    change_value,
                    outputs_db@[split_count as int]@.output.spending_key,
                    crate::script::spec_nop_script(),
                    crate::output::OutputFeatures { flags: 0, maturity: 0 },
                    outputs_db@[split_count as int]@.output.sender_offset_public_key,
                ));
            }
        }
        let ghost rv = views_of_outputs(outputs_db@);
        let ghost change_value_s = (total - total_split_amount - fee) as u64;
        proof {
            crate::storage::lemma_sum_values_nonneg(rs);
            crate::selection::lemma_sum_outputs_nonneg(rv);
            let (ordered, kind, kk, tot) = spec_selection(
                rs,
                tip,
                Some(UTXOSelectionStrategy::Largest),
                total_split_amount as int,
                fee_per_gram as int,
                split_count as int,
            );
            assert(split_count * amount_per_split == amount_per_split * split_count)
                by (nonlinear_arith);
            if change_required {
                assert(sum_outputs(rv) == total as int - fee);
            } else {
                assert(sum_outputs(rv) == total_split_amount as int);
            }
            assert(sum_outputs(rv) <= tot);
            assert(forall|jj: int|
                0 <= jj < outputs@.len() ==> (#[trigger] outputs@[jj]@).spending_key.len() == 32);
            lemma_selected_inputs_unspent(
                rs,
                tip,
                Some(UTXOSelectionStrategy::Largest),
                total_split_amount as int,
                fee_per_gram as int,
                split_count as int,
            );
            assert(crate::storage::spec_all_inputs_unspent(rs, views_of_outputs(utxos@)));
            assert(forall|jj: int|
                0 <= jj < rv.len() ==> (#[trigger] rv[jj]).commitment
                    == spec_coin_split_commitment(
                    m0,
                    amount_per_split,
                    split_count,
                    change_value_s,
                    jj,
                ));
        }
        proof {
            let (ordered, kind, kk, tot) = spec_selection(
                rs,
                tip,
                Some(UTXOSelectionStrategy::Largest),
                total_split_amount as int,
                fee_per_gram as int,
                split_count as int,
            );
            let oc = if kind == SCAN_CHANGE {
                split_count as int + 1
            } else {
                split_count as int
            };
            assert(rv.len() == oc);
            lemma_coin_split_fresh_equiv(
                rs,
                m0,
                amount_per_split,
                split_count,
                change_value_s,
                rv,
                oc,
            );
        }
        match self.db.encumber_outputs(tx_id, &utxos, &outputs_db) {
            Ok(()) => {
                proof {
                    assert(crate::storage::spec_all_receives_fresh(rs, rv));
                    assert(spec_coin_split_family_fresh(
                        rs,
                        m0,
                        amount_per_split,
                        split_count,
                        change_value_s,
                        rv.len() as int,
                    ));
                }
            },
            Err(e) => {
                proof {
                    assert(!crate::storage::spec_all_receives_fresh(rs, rv));
                    assert(!spec_coin_split_family_fresh(
                        rs,
                        m0,
                        amount_per_split,
                        split_count,
                        change_value_s,
                        rv.len() as int,
                    ));
                }
                let out: Result<(u64, crate::builder::Transaction, u64, u64), OutputManagerError>
                    = Err(OutputManagerError::from_storage(e));
                proof {
                    assert(spec_coin_split_post(
                        *old(self),
                        *self,
                        amount_per_split,
                        split_count,
                        fee_per_gram,
                        lock_height,
                        out,
                    ));
                }
                return out;
            },
        }
        let ghost rs1 = self.db@.records;
        self.db.confirm_encumbered_outputs(tx_id);
        proof {
            let (ordered, kind, kk, tot) = spec_selection(
                rs,
                tip,
                Some(UTXOSelectionStrategy::Largest),
                total_split_amount as int,
                fee_per_gram as int,
                split_count as int,
            );
            let f = |rec: crate::storage::RecordV| crate::storage::spec_confirm_record(rec, tx_id);
            assert(self.db@.records.len() == rs.len() + outputs_db@.len());
            assert forall|jj: int|
                0 <= jj < rs.len() implies #[trigger] self.db@.records[jj]
                == crate::storage::spec_confirm_record(
                crate::storage::spec_encumber_record(rs[jj], tx_id, ordered.take(kk)),
                tx_id,
            ) by {
                assert(self.db@.records[jj] == f(rs1[jj]));
                assert(rs1[jj] == crate::storage::spec_encumber_record(
                    rs[jj],
                    tx_id,
                    views_of_outputs(utxos@),
                ));
            }
            assert forall|jj: int|
                rs.len() <= jj < self.db@.records.len() implies {
                let rec = #[trigger] self.db@.records[jj];
                &&& rec.status == OutputStatus::EncumberedToBeReceived
                &&& rec.tx_id == Some(tx_id)
                &&& rec.output == rv[jj - rs.len()]
            } by {
                assert(self.db@.records[jj] == f(rs1[jj]));
                assert(rs1[jj] == crate::storage::spec_short_term_record(
                    rv[jj - rs.len()],
                    tx_id,
                ));
            }
        }
        let lock = match lock_height {
            Some(l) => l,
            None => 0,
        };
        let tx = self.assemble_transaction(
            &utxos,
            &outputs,
            fee,
            lock,
            crate::builder::KERNEL_FEATURES_EMPTY,
        );
        proof {
            assert forall|jj: int|
                0 <= jj < tx@.outputs.len() implies {
                let o = #[trigger] tx@.outputs[jj];
                &&& o.commitment == spec_coin_split_commitment(
                    m0,
                    amount_per_split,
                    split_count,
                    change_value_s,
                    jj,
                )
                &&& o.metadata_signature == crate::output::spec_final_signature_for(
                    (if jj < split_count as int {
                        amount_per_split
                    } else {
                        change_value_s
                    }),
                    crate::crypto::spec_derived_key(
                        m0.master,
                        crate::key_manager::BRANCH_SPEND,
                        (m0.next_index + jj) as u64,
                    ),
                    crate::script::spec_nop_script(),
                    crate::output::OutputFeatures { flags: 0, maturity: 0 },
                    o.sender_offset_public_key,
                )
            } by {
                assert(tx@.outputs[jj].commitment == crate::crypto::spec_commitment(
                    outputs@[jj]@.value,
                    outputs@[jj]@.spending_key,
                ));
                assert(tx@.outputs[jj].metadata_signature == outputs@[jj]@.metadata_signature);
                assert(tx@.outputs[jj].sender_offset_public_key
                    == outputs@[jj]@.sender_offset_public_key);
                assert(outputs@[jj]@ == rv[jj].output);
            }
        }
        Ok((tx_id, tx, fee, total))
    }

    /// Builds the receiver's half of an interactive transaction from a
    /// sender's single-round message: rejects anything but a single-round
    /// message, rejects any script other than the expected no-operation
    /// script, stores the incoming output as scheduled inbound, and returns
    /// the receiver protocol.
    pub fn get_recipient_transaction(
        &mut self,
        sender_message: crate::builder::TransactionSenderMessage,
    ) -> (r: Result<crate::builder::ReceiverTransactionProtocol, OutputManagerError>)
        requires
            old(self).wf(),
            old(self).master_key_manager@.next_index < u64::MAX,
            (sender_message matches crate::builder::TransactionSenderMessage::Single(d)
                ==> sum_values(old(self).db@.records) + d.amount <= u64::MAX),
        ensures
            final(self).wf(),
            final(self).config == old(self).config,
            r == Err::<crate::builder::ReceiverTransactionProtocol, OutputManagerError>(
                OutputManagerError::InvalidSenderMessage,
            ) <==> !(sender_message is Single),
            r == Err::<crate::builder::ReceiverTransactionProtocol, OutputManagerError>(
                OutputManagerError::InvalidScriptHash,
            ) <==> (sender_message matches crate::builder::TransactionSenderMessage::Single(d)
                && d.script@ != crate::script::spec_nop_script()),
            r is Err ==> final(self).db@ == old(self).db@,
            (r == Err::<crate::builder::ReceiverTransactionProtocol, OutputManagerError>(
                OutputManagerError::InvalidSenderMessage,
            ) || r == Err::<crate::builder::ReceiverTransactionProtocol, OutputManagerError>(
                OutputManagerError::InvalidScriptHash,
            )) ==> final(self).master_key_manager == old(self).master_key_manager,
            r is Ok <==> (sender_message
                matches crate::builder::TransactionSenderMessage::Single(d) && d.script@
                == crate::script::spec_nop_script() && !crate::storage::contains_commitment(
                old(self).db@.records,
                crate::crypto::spec_commitment(
                    d.amount,
                    crate::key_manager::spec_next_spend_key(old(self).master_key_manager@),
                ),
            )),
            (r matches Ok(rtp) ==> (sender_message
                matches crate::builder::TransactionSenderMessage::Single(d) && {
                let spend_key = crate::key_manager::spec_next_spend_key(
                    old(self).master_key_manager@,
                );
                &&& rtp.tx_id == d.tx_id
                &&& rtp.amount == d.amount
                &&& rtp@.output.value == d.amount
                &&& rtp@.output.spending_key == spend_key
                &&& rtp@.output.script == d.script@
                &&& rtp@.output.sender_offset_public_key == d.sender_offset_public_key@
                &&& rtp@.output.metadata_signature == crate::output::spec_partial_metadata_signature(
                    d.amount,
                    spend_key,
                    d.script@,
                    d.features,
                    d.sender_offset_public_key@,
                    d.public_commitment_nonce@,
                )
                &&& final(self).db@.records.len() == old(self).db@.records.len() + 1
                &&& final(self).db@.records.last().status == OutputStatus::EncumberedToBeReceived
                &&& final(self).db@.records.last().tx_id == Some(d.tx_id)
                &&& final(self).db@.records.last().output.output == rtp@.output
                &&& crate::key_manager::spec_next_key_transition(
                    old(self).master_key_manager@,
                    final(self).master_key_manager@,
                )
            })),
    {
        let data = match &sender_message {
            crate::builder::TransactionSenderMessage::Single(d) => d,
            _ => {
                return Err(OutputManagerError::InvalidSenderMessage);
            },
        };
        if !data.script.is_nop() {
            return Err(OutputManagerError::InvalidScriptHash);
        }
        let (spending_key, script_private_key) = self
            .master_key_manager
            .get_next_spend_and_script_key();
        let script_public_key = crate::crypto::public_key_of(script_private_key.as_slice());
        let metadata_signature = crate::output::TransactionOutput::create_partial_metadata_signature(
            data.amount,
            spending_key.as_slice(),
            &data.script,
            data.features,
            data.sender_offset_public_key.as_slice(),
            data.public_commitment_nonce.as_slice(),
        );
        let output = crate::output::UnblindedOutput::new(
            data.amount,
            spending_key,
            data.features,
            data.script.clone(),
            crate::script::ExecutionStack::for_public_key(&script_public_key),
            script_private_key,
            crate::crypto::clone_bytes(&data.sender_offset_public_key),
            metadata_signature,
        );
        let dbo = crate::output::DbUnblindedOutput::from_unblinded_output(output.clone());
        let ghost expected_commitment = crate::crypto::spec_commitment(
            data.amount,
            crate::key_manager::spec_next_spend_key(old(self).master_key_manager@),
        );
        proof {
            assert(dbo@.commitment == expected_commitment);
        }
        match self.db.add_output_to_be_received(data.tx_id, dbo, None) {
            Ok(()) => {
                proof {
                    assert(!crate::storage::contains_commitment(
                        old(self).db@.records,
                        expected_commitment,
                    ));
                }
            },
            Err(e) => {
                proof {
                    assert(crate::storage::contains_commitment(
                        old(self).db@.records,
                        expected_commitment,
                    ));
                }
                return Err(OutputManagerError::from_storage(e));
            },
        }
        let private_nonce = crate::crypto::random_key_bytes();
        let rtp = crate::builder::ReceiverTransactionProtocol {
            tx_id: data.tx_id,
            amount: data.amount,
            output,
            private_nonce,
        };
        Ok(rtp)
    }
}

/// A request to the output manager service.
pub enum OutputManagerRequest {
    /// Store a spendable output.
    AddOutput(crate::output::UnblindedOutput),
    /// Store a spendable output tied to a transaction.
    AddOutputWithTxId(u64, crate::output::UnblindedOutput),
    /// Replace a stored output's metadata signature.
    UpdateOutputMetadataSignature(crate::output::TransactionOutput),
    /// Compute the balance.
    GetBalance,
    /// Build the receiver half of an interactive transaction.
    GetRecipientTransaction(crate::builder::TransactionSenderMessage),
    /// Build the coinbase for (tx_id, reward, fees, block_height).
    GetCoinbaseTransaction(u64, u64, u64, u64),
    /// Prepare an outbound send: (tx_id, amount, fee_per_gram, lock_height,
    /// message, recipient script).
    PrepareToSendTransaction(u64, u64, u64, Option<u64>, String, crate::script::TariScript),
    /// Build a payment back to this wallet: (tx_id, amount, fee_per_gram,
    /// lock_height).
    CreatePayToSelfTransaction(u64, u64, u64, Option<u64>),
    /// Estimate a fee: (amount, fee_per_gram, num_kernels, num_outputs).
    FeeEstimate(u64, u64, u64, u64),
    /// Make a transaction's encumbrance official.
    ConfirmPendingTransaction(u64),
    /// Cancel a pending transaction.
    CancelTransaction(u64),
    /// Fetch all spent outputs.
    GetSpentOutputs,
    /// Fetch all spendable outputs, sorted by value.
    GetUnspentOutputs,
    /// Fetch all disproved outputs.
    GetInvalidOutputs,
    /// Start a validation run.
    ValidateUtxos,
    /// Split funds: (amount_per_split, split_count, fee_per_gram,
    /// lock_height).
    CreateCoinSplit(u64, u64, u64, Option<u64>),
    /// Encrypt the store under a cipher key.
    ApplyEncryption(Vec<u8>),
    /// Remove the store's encryption.
    RemoveEncryption,
    /// Serialize the master secret to mnemonic words over the given word
    /// table.
    GetSeedWords(Vec<String>),
    /// Expose the public halves of the rewind keys.
    GetPublicRewindKeys,
    /// Recover outputs rewindable with the wallet's own keys.
    ScanForRecoverableOutputs(Vec<TransactionOutput>),
    /// Scan outputs for one-sided payments.
    ScanOutputs(Vec<TransactionOutput>),
    /// Register a one-sided payment script.
    AddKnownOneSidedPaymentScript(crate::storage::KnownOneSidedPaymentScript),
    /// Restore a cancelled inbound transaction's outputs.
    ReinstateCancelledInboundTx(u64),
    /// Mark a pending coinbase abandoned, or clear the mark.
    SetCoinbaseAbandoned(u64, bool),
}

/// A reply from the output manager service.
pub enum OutputManagerResponse {
    /// The output was stored.
    OutputAdded,
    /// The metadata signature was replaced.
    OutputMetadataSignatureUpdated,
    /// The balance.
    Balance(Balance),
    /// The receiver protocol for an inbound transaction.
    RecipientTransactionGenerated(crate::builder::ReceiverTransactionProtocol),
    /// The coinbase transaction.
    CoinbaseTransaction(crate::builder::Transaction),
    /// The prepared sender protocol.
    TransactionToSend(crate::builder::SenderTransactionProtocol),
    /// The fee and finalized transaction of a payment to self.
    PayToSelfTransaction(u64, crate::builder::Transaction),
    /// The estimated fee.
    FeeEstimate(u64),
    /// The encumbrance was made official.
    PendingTransactionConfirmed,
    /// The pending transaction was cancelled.
    TransactionCancelled,
    /// The spent outputs.
    SpentOutputs(Vec<UnblindedOutput>),
    /// The spendable outputs, sorted by value.
    UnspentOutputs(Vec<UnblindedOutput>),
    /// The disproved outputs.
    InvalidOutputs(Vec<UnblindedOutput>),
    /// A validation run started, with its identifier.
    TxoValidationStarted(u64),
    /// A coin split: (tx_id, transaction, fee, input total).
    Transaction(u64, crate::builder::Transaction, u64, u64),
    /// Encryption was applied.
    EncryptionApplied,
    /// Encryption was removed.
    EncryptionRemoved,
    /// The mnemonic words of the master secret.
    SeedWords(Vec<String>),
    /// The public halves of the rewind keys.
    PublicRewindKeys(crate::key_manager::PublicRewindKeys),
    /// The outputs recovered with the wallet's own keys.
    RewoundOutputs(Vec<UnblindedOutput>),
    /// The outputs recovered from one-sided payments.
    ScanOutputs(Vec<UnblindedOutput>),
    /// The script was registered.
    AddKnownOneSidedPaymentScript,
    /// The cancelled inbound transaction was restored.
    ReinstatedCancelledInboundTx,
    /// The abandoned mark was set or cleared.
    CoinbaseAbandonedSet,
}

/// What a request demands of the service state before it can be handled:
/// representability of the values involved and room in the key counter.
pub open spec fn spec_request_wf(s: OutputManagerService, request: OutputManagerRequest) -> bool {
    let rs = s.db@.records;
    let pool_len = spec_outputs_with_status(rs, OutputStatus::Unspent).len() as int;
    match request {
        OutputManagerRequest::AddOutput(uo) => sum_values(rs) + uo.value <= u64::MAX,
        OutputManagerRequest::AddOutputWithTxId(_, uo) => sum_values(rs) + uo.value <= u64::MAX,
        OutputManagerRequest::GetRecipientTransaction(m) => s.master_key_manager@.next_index
            < u64::MAX && (m matches crate::builder::TransactionSenderMessage::Single(d)
            ==> sum_values(rs) + d.amount <= u64::MAX),
        OutputManagerRequest::GetCoinbaseTransaction(_, reward, fees, h) => reward + fees
            <= u64::MAX && h + COINBASE_LOCK_HEIGHT <= u64::MAX && sum_values(rs) + reward + fees
            <= u64::MAX,
        OutputManagerRequest::PrepareToSendTransaction(_, _, fpg, _, _, _) => s.master_key_manager@.next_index
            < u64::MAX && 2 * sum_values(rs) <= u64::MAX && spec_fee(
            fpg as int,
            1,
            pool_len + 1,
            3,
        ) <= u64::MAX,
        OutputManagerRequest::CreatePayToSelfTransaction(_, _, fpg, _) => s.master_key_manager@.next_index
            < u64::MAX - 1 && 2 * sum_values(rs) <= u64::MAX && spec_fee(
            fpg as int,
            1,
            pool_len + 1,
            3,
        ) <= u64::MAX,
        OutputManagerRequest::FeeEstimate(_, fpg, kernels, outs) => outs <= u64::MAX - 2
            && spec_fee(fpg as int, 1, pool_len + 1, outs as int + 2) <= u64::MAX && spec_fee(
            fpg as int,
            kernels as int,
            pool_len + 1,
            outs as int + 2,
        ) <= u64::MAX,
        OutputManagerRequest::GetSeedWords(word_list) => s.master_key_manager@.master.len() == 32
            && word_list@.len() == 2048,
        OutputManagerRequest::CreateCoinSplit(aps, count, fpg, _) => aps * count <= u64::MAX
            && count <= u64::MAX - 2 && s.master_key_manager@.next_index + count + 1 <= u64::MAX
            && 2 * sum_values(rs) <= u64::MAX && spec_fee(
            fpg as int,
            1,
            pool_len + 1,
            count as int + 2,
        ) <= u64::MAX,
        _ => true,
    }
}

impl OutputManagerService {
    /// Strips stored outputs down to their spendable records.
    fn strip_db_outputs(v: Vec<DbUnblindedOutput>) -> (r: Vec<UnblindedOutput>)
        ensures
            crate::scanner::views_of_unblinded(r@) == views_of_outputs(v@).map_values(
                |o: DbOutputV| o.output,
            ),
    {
        let mut r: Vec<UnblindedOutput> = Vec::new();
        let n = v.len();
        let mut i: usize = 0;
        while i < n
            invariant
                0 <= i <= n,
                n == v@.len(),
                crate::scanner::views_of_unblinded(r@) =~= views_of_outputs(v@).map_values(
                    |o: DbOutputV| o.output,
                ).take(i as int),
            decreases n - i,
        {
            let item = v[i].unblinded_output.clone();
            let ghost prev = r@;
            r.push(item);
            proof {
                assert(r@ =~= prev.push(item));
                assert(crate::scanner::views_of_unblinded(r@) =~= crate::scanner::views_of_unblinded(
                    prev,
                ).push(item@));
                assert(item@ == views_of_outputs(v@).map_values(|o: DbOutputV| o.output)[i as int]);
                assert(views_of_outputs(v@).map_values(|o: DbOutputV| o.output).take(i as int + 1)
                    =~= views_of_outputs(v@).map_values(|o: DbOutputV| o.output).take(
                    i as int,
                ).push(views_of_outputs(v@).map_values(|o: DbOutputV| o.output)[i as int]));
            }
            i += 1;
        }
        proof {
            assert(views_of_outputs(v@).map_values(|o: DbOutputV| o.output).take(n as int)
                =~= views_of_outputs(v@).map_values(|o: DbOutputV| o.output));
        }
        r
    }

    /// Handles one service request: dispatches to the operation it names and
    /// wraps the result in the matching reply.
    pub fn handle_request(&mut self, request: OutputManagerRequest) -> (r: Result<
        OutputManagerResponse,
        OutputManagerError,
    >)
        requires
            old(self).wf(),
            spec_request_wf(*old(self), request),
        ensures
            final(self).wf(),
            request matches OutputManagerRequest::AddOutput(uo) ==> {
                &&& (r is Ok <==> !crate::storage::contains_commitment(
                    old(self).db@.records,
                    crate::crypto::spec_commitment(uo@.value, uo@.spending_key),
                ))
                &&& (r is Ok ==> final(self).db@.records.len() == old(self).db@.records.len() + 1
                    && final(self).db@.records.last().output.output == uo@ && final(self).db@.records.last().status == OutputStatus::Unspent && final(self).db@.records.last().tx_id is None && final(self).db@.records.take(
                    old(self).db@.records.len() as int,
                ) == old(self).db@.records)
                &&& (r is Err ==> final(self).db@ == old(self).db@)
            },
            request matches OutputManagerRequest::AddOutputWithTxId(t, uo) ==> {
                &&& (r is Ok <==> !crate::storage::contains_commitment(
                    old(self).db@.records,
                    crate::crypto::spec_commitment(uo@.value, uo@.spending_key),
                ))
                &&& (r is Ok ==> final(self).db@.records.len() == old(self).db@.records.len() + 1
                    && final(self).db@.records.last().output.output == uo@ && final(self).db@.records.last().status == OutputStatus::Unspent && final(self).db@.records.last().tx_id == Some(t) && final(self).db@.records.take(
                    old(self).db@.records.len() as int,
                ) == old(self).db@.records)
                &&& (r is Err ==> final(self).db@ == old(self).db@)
            },
            request matches OutputManagerRequest::UpdateOutputMetadataSignature(o) ==> {
                &&& (r is Ok <==> crate::storage::contains_commitment(
                    old(self).db@.records,
                    o@.commitment,
                ))
                &&& (r is Err ==> final(self).db@ == old(self).db@)
            },
            request matches OutputManagerRequest::ConfirmPendingTransaction(tx) ==> final(self).db@.records == old(self).db@.records.map_values(
                |rec: crate::storage::RecordV| crate::storage::spec_confirm_record(rec, tx),
            ),
            request matches OutputManagerRequest::CancelTransaction(tx) ==> {
                &&& (r is Ok ==> final(self).db@.records == crate::storage::spec_cancel_model(
                    old(self).db@.records,
                    tx,
                ))
                &&& (r is Err ==> final(self).db@ == old(self).db@)
            },
            request matches OutputManagerRequest::ReinstateCancelledInboundTx(tx) ==> {
                &&& (r is Ok <==> exists|i: int|
                    0 <= i < old(self).db@.records.len()
                        && (#[trigger] old(self).db@.records[i]).status
                        == OutputStatus::CancelledInbound && old(self).db@.records[i].tx_id
                        == Some(tx))
                &&& (r is Ok ==> final(self).db@.records == old(self).db@.records.map_values(
                    |rec: crate::storage::RecordV| crate::storage::spec_reinstate_record(rec, tx),
                ))
                &&& (r is Err ==> final(self).db@ == old(self).db@)
            },
            request matches OutputManagerRequest::SetCoinbaseAbandoned(tx, ab) ==> final(self).db@.records == old(self).db@.records.map_values(
                |rec: crate::storage::RecordV| crate::storage::spec_set_abandoned_record(
                    rec,
                    tx,
                    ab,
                ),
            ),
            request matches OutputManagerRequest::ApplyEncryption(c) ==> {
                &&& (r is Ok <==> old(self).db@.cipher is None)
                &&& (r is Ok ==> final(self).db@ == (crate::storage::DbV {
                    cipher: Some(c@),
                    ..old(self).db@
                }))
                &&& (r is Err ==> final(self).db@ == old(self).db@)
            },
            request is RemoveEncryption ==> final(self).db@ == (crate::storage::DbV {
                cipher: None,
                ..old(self).db@
            }),
            request matches OutputManagerRequest::GetRecipientTransaction(m) ==> {
                &&& (r is Ok <==> (m matches crate::builder::TransactionSenderMessage::Single(d)
                    && d.script@ == crate::script::spec_nop_script()
                    && !crate::storage::contains_commitment(
                    old(self).db@.records,
                    crate::crypto::spec_commitment(
                        d.amount,
                        crate::key_manager::spec_next_spend_key(old(self).master_key_manager@),
                    ),
                )))
                &&& (r == Err::<OutputManagerResponse, OutputManagerError>(
                    OutputManagerError::InvalidSenderMessage,
                ) <==> !(m is Single))
                &&& (r is Err ==> final(self).db@ == old(self).db@)
                &&& (r matches Ok(resp) ==> (resp
                    matches OutputManagerResponse::RecipientTransactionGenerated(rtp) && (m
                    matches crate::builder::TransactionSenderMessage::Single(d) && {
                    &&& rtp.tx_id == d.tx_id
                    &&& rtp.amount == d.amount
                    &&& rtp@.output.value == d.amount
                    &&& final(self).db@.records.len() == old(self).db@.records.len() + 1
                    &&& final(self).db@.records.last().status
                        == OutputStatus::EncumberedToBeReceived
                    &&& final(self).db@.records.last().tx_id == Some(d.tx_id)
                })))
            },
            request matches OutputManagerRequest::GetCoinbaseTransaction(t, reward, fees, h) ==> {
                &&& r is Ok
                &&& crate::storage::count_matching(
                    final(self).db@.records,
                    crate::storage::spec_coinbase_at_height_pred(h),
                ) == 1
                &&& final(self).db@.records.last().status == OutputStatus::PendingCoinbase(h)
                &&& final(self).db@.records.last().tx_id == Some(t)
                &&& final(self).db@.records.last().output.output.value == (reward + fees) as u64
                &&& final(self).master_key_manager == old(self).master_key_manager
            },
            request matches OutputManagerRequest::PrepareToSendTransaction(
                tx,
                amount,
                fpg,
                lock,
                msg,
                script,
            ) ==> {
                &&& (r matches Ok(resp) ==> (resp
                    matches OutputManagerResponse::TransactionToSend(stp) && spec_prepare_post(
                    *old(self),
                    *final(self),
                    tx,
                    amount,
                    fpg,
                    lock,
                    msg,
                    script,
                    Ok(stp),
                )))
                &&& (r matches Err(e2) ==> spec_prepare_post(
                    *old(self),
                    *final(self),
                    tx,
                    amount,
                    fpg,
                    lock,
                    msg,
                    script,
                    Err(e2),
                ))
            },
            request matches OutputManagerRequest::CreatePayToSelfTransaction(
                tx,
                amount,
                fpg,
                lock,
            ) ==> {
                &&& (r matches Ok(resp) ==> (resp
                    matches OutputManagerResponse::PayToSelfTransaction(f, t2)
                    && spec_pay_to_self_post(
                    *old(self),
                    *final(self),
                    tx,
                    amount,
                    fpg,
                    lock,
                    Ok((f, t2)),
                )))
                &&& (r matches Err(e2) ==> spec_pay_to_self_post(
                    *old(self),
                    *final(self),
                    tx,
                    amount,
                    fpg,
                    lock,
                    Err(e2),
                ))
            },
            request matches OutputManagerRequest::CreateCoinSplit(aps, count, fpg, lock) ==> {
                &&& (r matches Ok(resp) ==> (resp matches OutputManagerResponse::Transaction(
                    txid,
                    t2,
                    f,
                    tot,
                ) && spec_coin_split_post(
                    *old(self),
                    *final(self),
                    aps,
                    count,
                    fpg,
                    lock,
                    Ok((txid, t2, f, tot)),
                )))
                &&& (r matches Err(e2) ==> spec_coin_split_post(
                    *old(self),
                    *final(self),
                    aps,
                    count,
                    fpg,
                    lock,
                    Err(e2),
                ))
            },
            request matches OutputManagerRequest::FeeEstimate(amount, fpg, kernels, outs) ==> {
                let (ordered, kind, k, total) = spec_selection(
                    old(self).db@.records,
                    old(self).chain_tip,
                    None,
                    amount as int,
                    fpg as int,
                    outs as int,
                );
                &&& (r is Ok <==> (kind != SCAN_SHORT || (ordered.len() == 0 && amount == 0)))
                &&& (r matches Ok(resp) ==> (resp matches OutputManagerResponse::FeeEstimate(f)
                    && f == spec_fee_with_minimum(fpg as int, kernels as int, k, outs as int)))
                &&& final(self).db@ == old(self).db@
            },
            request matches OutputManagerRequest::ScanOutputs(outs) ==> {
                let (fr, ro) = crate::scanner::spec_scan_one_sided_model(
                    old(self).db@.records,
                    old(self).db@.known_scripts,
                    crate::scanner::views_of_chain_outputs(outs@),
                );
                &&& final(self).db@.records == fr
                &&& (r matches Ok(resp) ==> (resp matches OutputManagerResponse::ScanOutputs(v)
                    && crate::scanner::views_of_unblinded(v@) == ro))
            },
            request matches OutputManagerRequest::ScanForRecoverableOutputs(outs) ==> {
                let (fr, ro) = crate::scanner::spec_recover_model(
                    old(self).db@.records,
                    crate::crypto::spec_derived_key(
                        old(self).master_key_manager@.master,
                        crate::key_manager::BRANCH_REWIND,
                        0,
                    ),
                    crate::crypto::spec_derived_key(
                        old(self).master_key_manager@.master,
                        crate::key_manager::BRANCH_BLINDING,
                        0,
                    ),
                    crate::scanner::views_of_chain_outputs(outs@),
                );
                &&& final(self).db@.records == fr
                &&& (r matches Ok(resp) ==> (resp matches OutputManagerResponse::RewoundOutputs(v)
                    && crate::scanner::views_of_unblinded(v@) == ro))
            },
            request matches OutputManagerRequest::AddKnownOneSidedPaymentScript(ks) ==> {
                &&& final(self).db@.records == old(self).db@.records
                &&& ((exists|i: int|
                    0 <= i < old(self).db@.known_scripts.len()
                        && (#[trigger] old(self).db@.known_scripts[i]).script == ks@.script)
                    ==> final(self).db@.known_scripts == old(self).db@.known_scripts)
                &&& (!(exists|i: int|
                    0 <= i < old(self).db@.known_scripts.len()
                        && (#[trigger] old(self).db@.known_scripts[i]).script == ks@.script)
                    ==> final(self).db@.known_scripts == old(self).db@.known_scripts.push(ks@))
            },
            (request is AddOutput || request is AddOutputWithTxId) && r is Ok ==> r == Ok::<
                OutputManagerResponse,
                OutputManagerError,
            >(OutputManagerResponse::OutputAdded),
            request is UpdateOutputMetadataSignature && r is Ok ==> r == Ok::<
                OutputManagerResponse,
                OutputManagerError,
            >(OutputManagerResponse::OutputMetadataSignatureUpdated),
            request is GetBalance ==> (r matches Ok(resp) && resp matches OutputManagerResponse::Balance(b)
                && b.available_balance == crate::storage::spec_available_balance(
                old(self).db@.records,
                old(self).chain_tip,
            ) && b.pending_incoming_balance == spec_pending_incoming_balance(old(self).db@.records)),
            request is GetRecipientTransaction && r is Ok ==> (r matches Ok(resp) && resp
                is RecipientTransactionGenerated),
            request is GetCoinbaseTransaction && r is Ok ==> (r matches Ok(resp) && resp
                is CoinbaseTransaction),
            request is GetCoinbaseTransaction ==> r is Ok,
            request is PrepareToSendTransaction && r is Ok ==> (r matches Ok(resp) && resp
                is TransactionToSend),
            request is CreatePayToSelfTransaction && r is Ok ==> (r matches Ok(resp) && resp
                is PayToSelfTransaction),
            request is FeeEstimate && r is Ok ==> (r matches Ok(resp) && resp is FeeEstimate),
            request is ConfirmPendingTransaction ==> r == Ok::<
                OutputManagerResponse,
                OutputManagerError,
            >(OutputManagerResponse::PendingTransactionConfirmed),
            request is CancelTransaction && r is Ok ==> r == Ok::<
                OutputManagerResponse,
                OutputManagerError,
            >(OutputManagerResponse::TransactionCancelled),
            request matches OutputManagerRequest::CancelTransaction(tx) ==> (r is Ok
                <==> crate::storage::spec_has_cancellable(old(self).db@.records, tx)),
            request is GetSpentOutputs ==> (r matches Ok(resp) && resp
                matches OutputManagerResponse::SpentOutputs(v) && crate::scanner::views_of_unblinded(
                v@,
            ) == spec_outputs_with_status(old(self).db@.records, OutputStatus::Spent).map_values(
                |o: DbOutputV| o.output,
            )),
            request is GetUnspentOutputs ==> (r matches Ok(resp) && resp
                matches OutputManagerResponse::UnspentOutputs(v)
                && crate::scanner::views_of_unblinded(v@) == spec_value_sorted(
                spec_outputs_with_status(old(self).db@.records, OutputStatus::Unspent),
            ).map_values(|o: DbOutputV| o.output)),
            request is GetInvalidOutputs ==> (r matches Ok(resp) && resp
                matches OutputManagerResponse::InvalidOutputs(v)
                && crate::scanner::views_of_unblinded(v@) == spec_outputs_with_status(
                old(self).db@.records,
                OutputStatus::Invalid,
            ).map_values(|o: DbOutputV| o.output)),
            request is ValidateUtxos ==> (r is Ok <==> old(self).base_node_set),
            request is ValidateUtxos && r is Ok ==> (r matches Ok(resp) && resp
                is TxoValidationStarted),
            request is CreateCoinSplit && r is Ok ==> (r matches Ok(resp) && resp is Transaction),
            request is ApplyEncryption && r is Ok ==> r == Ok::<
                OutputManagerResponse,
                OutputManagerError,
            >(OutputManagerResponse::EncryptionApplied),
            request is RemoveEncryption ==> r == Ok::<OutputManagerResponse, OutputManagerError>(
                OutputManagerResponse::EncryptionRemoved,
            ) && final(self).db@.cipher is None,
            request is GetPublicRewindKeys ==> (r matches Ok(resp) && resp
                is PublicRewindKeys),
            request matches OutputManagerRequest::GetSeedWords(word_list) ==> (r matches Ok(resp)
                && resp matches OutputManagerResponse::SeedWords(words) && words@.len() == 24
                && (forall|i: int|
                0 <= i < 24 ==> (#[trigger] words@[i])@ == word_list@[
                    crate::key_manager::spec_seed_word_index(
                        crate::key_manager::spec_seed_stream(old(self).master_key_manager@.master),
                        i,
                    )
                ]@) && final(self).db@ == old(self).db@),
            request is ScanForRecoverableOutputs ==> (r matches Ok(resp) && resp
                is RewoundOutputs),
            request is ScanOutputs ==> (r matches Ok(resp) && resp
                matches OutputManagerResponse::ScanOutputs(_)),
            request is AddKnownOneSidedPaymentScript ==> r == Ok::<
                OutputManagerResponse,
                OutputManagerError,
            >(OutputManagerResponse::AddKnownOneSidedPaymentScript),
            request is ReinstateCancelledInboundTx && r is Ok ==> r == Ok::<
                OutputManagerResponse,
                OutputManagerError,
            >(OutputManagerResponse::ReinstatedCancelledInboundTx),
            request is SetCoinbaseAbandoned ==> r == Ok::<OutputManagerResponse, OutputManagerError>(
                OutputManagerResponse::CoinbaseAbandonedSet,
            ),
    {
        match request {
            OutputManagerRequest::AddOutput(uo) => {
                match self.add_output(None, uo) {
                    Ok(()) => Ok(OutputManagerResponse::OutputAdded),
                    Err(e) => Err(e),
                }
            },
            OutputManagerRequest::AddOutputWithTxId(tx_id, uo) => {
                match self.add_output(Some(tx_id), uo) {
                    Ok(()) => Ok(OutputManagerResponse::OutputAdded),
                    Err(e) => Err(e),
                }
            },
            OutputManagerRequest::UpdateOutputMetadataSignature(output) => {
                match self.update_output_metadata_signature(&output) {
                    Ok(()) => Ok(OutputManagerResponse::OutputMetadataSignatureUpdated),
                    Err(e) => Err(e),
                }
            },
            OutputManagerRequest::GetBalance => {
                let tip = self.chain_tip;
                Ok(OutputManagerResponse::Balance(self.get_balance(tip)))
            },
            OutputManagerRequest::GetRecipientTransaction(m) => {
                match self.get_recipient_transaction(m) {
                    Ok(rtp) => Ok(OutputManagerResponse::RecipientTransactionGenerated(rtp)),
                    Err(e) => Err(e),
                }
            },
            OutputManagerRequest::GetCoinbaseTransaction(tx_id, reward, fees, height) => {
                match self.get_coinbase_transaction(tx_id, reward, fees, height) {
                    Ok(tx) => Ok(OutputManagerResponse::CoinbaseTransaction(tx)),
                    Err(e) => Err(e),
                }
            },
            OutputManagerRequest::PrepareToSendTransaction(
                tx_id,
                amount,
                fee_per_gram,
                lock_height,
                message,
                script,
            ) => {
                match self.prepare_transaction_to_send(
                    tx_id,
                    amount,
                    fee_per_gram,
                    lock_height,
                    message,
                    script,
                ) {
                    Ok(stp) => Ok(OutputManagerResponse::TransactionToSend(stp)),
                    Err(e) => Err(e),
                }
            },
            OutputManagerRequest::CreatePayToSelfTransaction(tx_id, amount, fee_per_gram, lock) => {
                match self.create_pay_to_self_transaction(tx_id, amount, fee_per_gram, lock) {
                    Ok((fee, tx)) => Ok(OutputManagerResponse::PayToSelfTransaction(fee, tx)),
                    Err(e) => Err(e),
                }
            },
            OutputManagerRequest::FeeEstimate(amount, fee_per_gram, kernels, outs) => {
                match self.fee_estimate(amount, fee_per_gram, kernels, outs) {
                    Ok(fee) => Ok(OutputManagerResponse::FeeEstimate(fee)),
                    Err(e) => Err(e),
                }
            },
            OutputManagerRequest::ConfirmPendingTransaction(tx_id) => {
                match self.confirm_encumberance(tx_id) {
                    Ok(()) => Ok(OutputManagerResponse::PendingTransactionConfirmed),
                    Err(e) => Err(e),
                }
            },
            OutputManagerRequest::CancelTransaction(tx_id) => {
                match self.cancel_transaction(tx_id) {
                    Ok(()) => Ok(OutputManagerResponse::TransactionCancelled),
                    Err(e) => Err(e),
                }
            },
            OutputManagerRequest::GetSpentOutputs => {
                let outs = self.fetch_spent_outputs();
                Ok(OutputManagerResponse::SpentOutputs(Self::strip_db_outputs(outs)))
            },
            OutputManagerRequest::GetUnspentOutputs => {
                let outs = self.fetch_unspent_outputs();
                Ok(OutputManagerResponse::UnspentOutputs(Self::strip_db_outputs(outs)))
            },
            OutputManagerRequest::GetInvalidOutputs => {
                let outs = self.fetch_invalid_outputs();
                Ok(OutputManagerResponse::InvalidOutputs(Self::strip_db_outputs(outs)))
            },
            OutputManagerRequest::ValidateUtxos => {
                match self.validate_outputs() {
                    Ok(id) => Ok(OutputManagerResponse::TxoValidationStarted(id)),
                    Err(e) => Err(e),
                }
            },
            OutputManagerRequest::CreateCoinSplit(amount_per_split, count, fee_per_gram, lock) => {
                match self.create_coin_split(amount_per_split, count, fee_per_gram, lock) {
                    Ok((tx_id, tx, fee, total)) => Ok(
                        OutputManagerResponse::Transaction(tx_id, tx, fee, total),
                    ),
                    Err(e) => Err(e),
                }
            },
            OutputManagerRequest::ApplyEncryption(cipher) => {
                match self.db.apply_encryption(cipher) {
                    Ok(()) => Ok(OutputManagerResponse::EncryptionApplied),
                    Err(e) => Err(OutputManagerError::from_storage(e)),
                }
            },
            OutputManagerRequest::RemoveEncryption => {
                self.db.remove_encryption();
                Ok(OutputManagerResponse::EncryptionRemoved)
            },
            OutputManagerRequest::GetSeedWords(word_list) => {
                Ok(OutputManagerResponse::SeedWords(self.master_key_manager.get_seed_words(&word_list)))
            },
            OutputManagerRequest::GetPublicRewindKeys => {
                Ok(
                    OutputManagerResponse::PublicRewindKeys(
                        self.master_key_manager.get_rewind_public_keys(),
                    ),
                )
            },
            OutputManagerRequest::ScanForRecoverableOutputs(outputs) => {
                match self.scan_for_recoverable_outputs(outputs) {
                    Ok(v) => Ok(OutputManagerResponse::RewoundOutputs(v)),
                    Err(e) => Err(e),
                }
            },
            OutputManagerRequest::ScanOutputs(outputs) => {
                match self.scan_outputs_for_one_sided_payments(outputs) {
                    Ok(v) => Ok(OutputManagerResponse::ScanOutputs(v)),
                    Err(e) => Err(e),
                }
            },
            OutputManagerRequest::AddKnownOneSidedPaymentScript(ks) => {
                match self.add_known_script(ks) {
                    Ok(()) => Ok(OutputManagerResponse::AddKnownOneSidedPaymentScript),
                    Err(e) => Err(e),
                }
            },
            OutputManagerRequest::ReinstateCancelledInboundTx(tx_id) => {
                match self.reinstate_cancelled_inbound_transaction_outputs(tx_id) {
                    Ok(()) => Ok(OutputManagerResponse::ReinstatedCancelledInboundTx),
                    Err(e) => Err(e),
                }
            },
            OutputManagerRequest::SetCoinbaseAbandoned(tx_id, abandoned) => {
                match self.set_coinbase_abandoned(tx_id, abandoned) {
                    Ok(()) => Ok(OutputManagerResponse::CoinbaseAbandonedSet),
                    Err(e) => Err(e),
                }
            },
        }
    }
}

} // verus!
