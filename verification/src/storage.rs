//! The output store: every output the wallet knows, keyed by commitment,
//! with its pool membership. All mutating operations keep the store's
//! invariants: no commitment in two pools, and a bounded total value.

use vstd::prelude::*;
use crate::crypto::bytes_eq;
use crate::crypto::clone_bytes;
use crate::errors::OutputManagerStorageError;
use crate::output::DbOutputV;
use crate::output::DbUnblindedOutput;
use crate::script::ExecutionStack;
use crate::script::TariScript;

verus! {

/// The pool a stored output belongs to. A record is in exactly one.
#[derive(Clone, Copy, Debug, PartialEq, Eq, Structural)]
pub enum OutputStatus {
    /// Confirmed and spendable.
    Unspent,
    /// Scheduled inbound: a receiver protocol is under way.
    EncumberedToBeReceived,
    /// Reserved as the input of an in-progress outbound transaction.
    EncumberedToBeSpent,
    /// Selected while negotiation is incomplete; cleared on startup.
    ShortTermEncumbered,
    /// A coinbase awaiting maturity at the given block height.
    PendingCoinbase(u64),
    /// Spent as the input of a confirmed transaction.
    Spent,
    /// The last validation against the chain disproved its presence.
    Invalid,
    /// A cancelled inbound output; restorable.
    CancelledInbound,
}

/// A stored output with its pool membership.
pub struct DbRecord {
    /// The output itself.
    pub output: DbUnblindedOutput,
    /// The pool the output is in.
    pub status: OutputStatus,
    /// The transaction the output is tied to, if any.
    pub tx_id: Option<u64>,
    /// Whether a pending coinbase has been marked abandoned.
    pub abandoned: bool,
}

/// Mathematical model of a stored output.
pub struct RecordV {
    /// The output's model.
    pub output: DbOutputV,
    /// The pool the output is in.
    pub status: OutputStatus,
    /// The transaction the output is tied to, if any.
    pub tx_id: Option<u64>,
    /// Whether a pending coinbase has been marked abandoned.
    pub abandoned: bool,
}

impl View for DbRecord {
    type V = RecordV;

    open spec fn view(&self) -> RecordV {
        RecordV {
            output: self.output@,
            status: self.status,
            tx_id: self.tx_id,
            abandoned: self.abandoned,
        }
    }
}

impl Clone for DbRecord {
    fn clone(&self) -> (r: Self)
        ensures
            r@ == self@,
    {
        let r = DbRecord {
            output: self.output.clone(),
            status: self.status,
            tx_id: self.tx_id,
            abandoned: self.abandoned,
        };
        proof {
            assert(r@ == self@);
        }
        r
    }
}

/// A script this wallet watches for one-sided payments.
pub struct KnownOneSidedPaymentScript {
    /// The secret key able to satisfy the script.
    pub private_key: Vec<u8>,
    /// The script itself.
    pub script: TariScript,
    /// The witness satisfying the script.
    pub input: ExecutionStack,
}

/// Mathematical model of a watched one-sided payment script.
pub struct KnownScriptV {
    /// The secret key bytes.
    pub private_key: Seq<u8>,
    /// The script bytes.
    pub script: Seq<u8>,
    /// The witness bytes.
    pub input: Seq<u8>,
}

impl View for KnownOneSidedPaymentScript {
    type V = KnownScriptV;

    open spec fn view(&self) -> KnownScriptV {
        KnownScriptV {
            private_key: self.private_key@,
            script: self.script@,
            input: self.input@,
        }
    }
}

impl Clone for KnownOneSidedPaymentScript {
    fn clone(&self) -> (r: Self)
        ensures
            r@ == self@,
    {
        let r = KnownOneSidedPaymentScript {
            private_key: clone_bytes(&self.private_key),
            script: self.script.clone(),
            input: self.input.clone(),
        };
        proof {
            assert(r@ == self@);
        }
        r
    }
}

/// Mathematical model of the whole store.
pub struct DbV {
    /// All stored outputs, in insertion order.
    pub records: Seq<RecordV>,
    /// The cipher key when the store is encrypted.
    pub cipher: Option<Seq<u8>>,
    /// The watched one-sided payment scripts.
    pub known_scripts: Seq<KnownScriptV>,
}

/// The output store.
pub struct OutputManagerDatabase {
    /// All stored outputs, in insertion order.
    pub records: Vec<DbRecord>,
    /// The cipher key when the store is encrypted.
    pub cipher: Option<Vec<u8>>,
    /// The watched one-sided payment scripts.
    pub known_scripts: Vec<KnownOneSidedPaymentScript>,
}

impl View for OutputManagerDatabase {
    type V = DbV;

    open spec fn view(&self) -> DbV {
        DbV {
            records: self.records@.map_values(|r: DbRecord| r@),
            cipher: match self.cipher {
                Some(ref c) => Some(c@),
                None => None,
            },
            known_scripts: self.known_scripts@.map_values(|s: KnownOneSidedPaymentScript| s@),
        }
    }
}

/// No two records share a commitment, so a commitment is in at most one pool.
pub open spec fn commitments_unique(rs: Seq<RecordV>) -> bool {
    forall|i: int, j: int|
        0 <= i < j < rs.len() ==> rs[i].output.commitment != rs[j].output.commitment
}

/// Sum of the values of all records.
pub open spec fn sum_values(rs: Seq<RecordV>) -> int
    decreases rs.len(),
{
    if rs.len() == 0 {
        0
    } else {
        sum_values(rs.drop_last()) + rs.last().output.output.value
    }
}

/// Sum of the values of the records matching a predicate.
pub open spec fn sum_matching(rs: Seq<RecordV>, pred: spec_fn(RecordV) -> bool) -> int
    decreases rs.len(),
{
    if rs.len() == 0 {
        0
    } else {
        sum_matching(rs.drop_last(), pred) + if pred(rs.last()) {
            rs.last().output.output.value as int
        } else {
            0
        }
    }
}

/// The store's invariant: unique commitments and a representable total value.
pub open spec fn db_wf(v: DbV) -> bool {
    &&& commitments_unique(v.records)
    &&& sum_values(v.records) <= u64::MAX
}

/// Whether some record carries the given commitment.
pub open spec fn contains_commitment(rs: Seq<RecordV>, c: Seq<u8>) -> bool {
    exists|i: int| 0 <= i < rs.len() && rs[i].output.commitment == c
}

/// Every record value is non-negative, so sums only grow.
pub proof fn lemma_sum_values_nonneg(rs: Seq<RecordV>)
    ensures
        0 <= sum_values(rs),
    decreases rs.len(),
{
    if rs.len() > 0 {
        lemma_sum_values_nonneg(rs.drop_last());
    }
}

/// A matching sum is bounded by the total sum.
pub proof fn lemma_sum_matching_le(rs: Seq<RecordV>, pred: spec_fn(RecordV) -> bool)
    ensures
        0 <= sum_matching(rs, pred) <= sum_values(rs),
    decreases rs.len(),
{
    if rs.len() > 0 {
        lemma_sum_matching_le(rs.drop_last(), pred);
    }
}

/// Stepping a prefix sum by one element.
pub proof fn lemma_sum_matching_take_step(rs: Seq<RecordV>, pred: spec_fn(RecordV) -> bool, i: int)
    requires
        0 <= i < rs.len(),
    ensures
        sum_matching(rs.take(i + 1), pred) == sum_matching(rs.take(i), pred) + if pred(rs[i]) {
            rs[i].output.output.value as int
        } else {
            0
        },
{
    assert(rs.take(i + 1).drop_last() =~= rs.take(i));
    assert(rs.take(i + 1).last() == rs[i]);
}

/// Stepping a prefix value sum by one element.
pub proof fn lemma_sum_values_take_step(rs: Seq<RecordV>, i: int)
    requires
        0 <= i < rs.len(),
    ensures
        sum_values(rs.take(i + 1)) == sum_values(rs.take(i)) + rs[i].output.output.value,
{
    assert(rs.take(i + 1).drop_last() =~= rs.take(i));
    assert(rs.take(i + 1).last() == rs[i]);
}

/// A prefix value sum is bounded by the whole.
pub proof fn lemma_sum_values_take_le(rs: Seq<RecordV>, i: int)
    requires
        0 <= i <= rs.len(),
    ensures
        sum_values(rs.take(i)) <= sum_values(rs),
    decreases rs.len() - i,
{
    if i == rs.len() {
        assert(rs.take(i) =~= rs);
    } else {
        lemma_sum_values_take_step(rs, i);
        lemma_sum_values_take_le(rs, i + 1);
    }
}

/// Sum of the values of a sequence of outputs.
pub open spec fn sum_outputs(os: Seq<DbOutputV>) -> int
    decreases os.len(),
{
    if os.len() == 0 {
        0
    } else {
        sum_outputs(os.drop_last()) + os.last().output.value
    }
}

/// The models of a vector of stored outputs.
pub open spec fn views_of_outputs(s: Seq<DbUnblindedOutput>) -> Seq<DbOutputV> {
    s.map_values(|o: DbUnblindedOutput| o@)
}

/// Whether some output in the sequence carries the given commitment.
pub open spec fn contains_output_commitment(os: Seq<DbOutputV>, c: Seq<u8>) -> bool {
    exists|k: int| 0 <= k < os.len() && os[k].commitment == c
}

/// A record-wise transform that keeps each record's output keeps the sum.
pub proof fn lemma_sum_values_map(rs: Seq<RecordV>, f: spec_fn(RecordV) -> RecordV)
    requires
        forall|r: RecordV| (#[trigger] f(r)).output == r.output,
    ensures
        sum_values(rs.map_values(f)) == sum_values(rs),
    decreases rs.len(),
{
    if rs.len() > 0 {
        assert(rs.map_values(f).drop_last() =~= rs.drop_last().map_values(f));
        lemma_sum_values_map(rs.drop_last(), f);
    }
}

/// A record-wise transform that keeps each record's output keeps the
/// commitments unique.
pub proof fn lemma_unique_map(rs: Seq<RecordV>, f: spec_fn(RecordV) -> RecordV)
    requires
        forall|r: RecordV| (#[trigger] f(r)).output == r.output,
        commitments_unique(rs),
    ensures
        commitments_unique(rs.map_values(f)),
{
}

/// Sums distribute over concatenation.
pub proof fn lemma_sum_values_append(a: Seq<RecordV>, b: Seq<RecordV>)
    ensures
        sum_values(a + b) == sum_values(a) + sum_values(b),
    decreases b.len(),
{
    if b.len() == 0 {
        assert(a + b =~= a);
    } else {
        assert((a + b).drop_last() =~= a + b.drop_last());
        lemma_sum_values_append(a, b.drop_last());
    }
}

/// The record a send input becomes while its transaction is negotiated.
pub open spec fn spec_encumber_record(r: RecordV, tx_id: u64, send: Seq<DbOutputV>) -> RecordV {
    if contains_output_commitment(send, r.output.commitment) {
        RecordV { status: OutputStatus::EncumberedToBeSpent, tx_id: Some(tx_id), ..r }
    } else {
        r
    }
}

/// The record a change output is stored as while negotiation completes.
pub open spec fn spec_short_term_record(o: DbOutputV, tx_id: u64) -> RecordV {
    RecordV { output: o, status: OutputStatus::ShortTermEncumbered, tx_id: Some(tx_id), abandoned: false }
}

/// Every send input is present and spendable.
pub open spec fn spec_all_inputs_unspent(rs: Seq<RecordV>, send: Seq<DbOutputV>) -> bool {
    forall|k: int|
        0 <= k < send.len() ==> exists|i: int|
            0 <= i < rs.len() && rs[i].output.commitment == (#[trigger] send[k]).commitment
                && rs[i].status == OutputStatus::Unspent
}

/// Every receive output is fresh, within the store and among themselves.
pub open spec fn spec_all_receives_fresh(rs: Seq<RecordV>, recv: Seq<DbOutputV>) -> bool {
    &&& forall|k: int|
        0 <= k < recv.len() ==> !contains_commitment(rs, (#[trigger] recv[k]).commitment)
    &&& forall|k1: int, k2: int|
        0 <= k1 < k2 < recv.len() ==> recv[k1].commitment != recv[k2].commitment
}

/// The stored records after a successful encumbrance.
pub open spec fn spec_encumber_model(
    rs: Seq<RecordV>,
    tx_id: u64,
    send: Seq<DbOutputV>,
    recv: Seq<DbOutputV>,
) -> Seq<RecordV> {
    rs.map_values(|r: RecordV| spec_encumber_record(r, tx_id, send)) + recv.map_values(
        |o: DbOutputV| spec_short_term_record(o, tx_id),
    )
}

/// The sum of the short-term records for a sequence of outputs.
proof fn lemma_sum_short_term_records(os: Seq<DbOutputV>, tx_id: u64)
    ensures
        sum_values(os.map_values(|o: DbOutputV| spec_short_term_record(o, tx_id))) == sum_outputs(os),
    decreases os.len(),
{
    if os.len() > 0 {
        let f = |o: DbOutputV| spec_short_term_record(o, tx_id);
        assert(os.map_values(f).drop_last() =~= os.drop_last().map_values(f));
        lemma_sum_short_term_records(os.drop_last(), tx_id);
    }
}

impl OutputManagerDatabase {
    /// An empty store.
    pub fn new() -> (r: Self)
        ensures
            r@.records =~= Seq::<RecordV>::empty(),
            r@.cipher is None,
            r@.known_scripts =~= Seq::<KnownScriptV>::empty(),
            db_wf(r@),
    {
        OutputManagerDatabase { records: Vec::new(), cipher: None, known_scripts: Vec::new() }
    }

    /// Finds the record carrying a commitment, if any.
    fn find_commitment(&self, c: &[u8]) -> (r: Option<usize>)
        ensures
            match r {
                Some(i) => 0 <= i < self@.records.len() && self@.records[i as int].output.commitment
                    == c@,
                None => !contains_commitment(self@.records, c@),
            },
    {
        let n = self.records.len();
        let mut i: usize = 0;
        while i < n
            invariant
                0 <= i <= n,
                n == self.records@.len(),
                self@.records.len() == n,
                forall|k: int| 0 <= k < i ==> self@.records[k].output.commitment != c@,
            decreases n - i,
        {
            if bytes_eq(self.records[i].output.commitment.as_slice(), c) {
                return Some(i);
            }
            i += 1;
        }
        None
    }

    /// Adds a record in the given pool; the commitment must be fresh.
    fn add_record(
        &mut self,
        output: DbUnblindedOutput,
        status: OutputStatus,
        tx_id: Option<u64>,
    ) -> (r: Result<(), OutputManagerStorageError>)
        requires
            db_wf(old(self)@),
            sum_values(old(self)@.records) + old(self).records@.len() >= 0,
            sum_values(old(self)@.records) + output@.output.value <= u64::MAX,
        ensures
            r is Ok <==> !contains_commitment(old(self)@.records, output@.commitment),
            r is Ok ==> final(self)@.records == old(self)@.records.push(
                RecordV { output: output@, status, tx_id, abandoned: false },
            ),
            r is Err ==> final(self)@ == old(self)@ && r == Err::<(),
                OutputManagerStorageError,
            >(OutputManagerStorageError::DuplicateOutput),
            final(self)@.cipher == old(self)@.cipher,
            final(self)@.known_scripts == old(self)@.known_scripts,
            db_wf(final(self)@),
    {
        match self.find_commitment(output.commitment.as_slice()) {
            Some(_) => Err(OutputManagerStorageError::DuplicateOutput),
            None => {
                let rec = DbRecord { output, status, tx_id, abandoned: false };
                let ghost old_records = self@.records;
                self.records.push(rec);
                proof {
                    assert(self@.records =~= old_records.push(rec@));
                    assert(self@.records.drop_last() =~= old_records);
                }
                Ok(())
            },
        }
    }

    /// Stores a confirmed, spendable output. Fails with `DuplicateOutput`
    /// exactly when its commitment is already present.
    pub fn add_unspent_output(&mut self, output: DbUnblindedOutput) -> (r: Result<
        (),
        OutputManagerStorageError,
    >)
        requires
            db_wf(old(self)@),
            sum_values(old(self)@.records) + output@.output.value <= u64::MAX,
        ensures
            r is Ok <==> !contains_commitment(old(self)@.records, output@.commitment),
            r is Ok ==> final(self)@.records == old(self)@.records.push(
                RecordV {
                    output: output@,
                    status: OutputStatus::Unspent,
                    tx_id: None,
                    abandoned: false,
                },
            ),
            r is Err ==> final(self)@ == old(self)@ && r == Err::<(),
                OutputManagerStorageError,
            >(OutputManagerStorageError::DuplicateOutput),
            final(self)@.cipher == old(self)@.cipher,
            final(self)@.known_scripts == old(self)@.known_scripts,
            db_wf(final(self)@),
    {
        proof {
            lemma_sum_values_nonneg(self@.records);
        }
        self.add_record(output, OutputStatus::Unspent, None)
    }

    /// Stores a confirmed, spendable output tied to a transaction.
    pub fn add_unspent_output_with_tx_id(&mut self, tx_id: u64, output: DbUnblindedOutput) -> (r:
        Result<(), OutputManagerStorageError>)
        requires
            db_wf(old(self)@),
            sum_values(old(self)@.records) + output@.output.value <= u64::MAX,
        ensures
            r is Ok <==> !contains_commitment(old(self)@.records, output@.commitment),
            r is Ok ==> final(self)@.records == old(self)@.records.push(
                RecordV {
                    output: output@,
                    status: OutputStatus::Unspent,
                    tx_id: Some(tx_id),
                    abandoned: false,
                },
            ),
            r is Err ==> final(self)@ == old(self)@ && r == Err::<(),
                OutputManagerStorageError,
            >(OutputManagerStorageError::DuplicateOutput),
            final(self)@.cipher == old(self)@.cipher,
            final(self)@.known_scripts == old(self)@.known_scripts,
            db_wf(final(self)@),
    {
        proof {
            lemma_sum_values_nonneg(self@.records);
        }
        self.add_record(output, OutputStatus::Unspent, Some(tx_id))
    }

    /// Schedules an inbound output: `EncumberedToBeReceived`, or
    /// `PendingCoinbase(h)` when a coinbase block height is given.
    pub fn add_output_to_be_received(
        &mut self,
        tx_id: u64,
        output: DbUnblindedOutput,
        coinbase_block_height: Option<u64>,
    ) -> (r: Result<(), OutputManagerStorageError>)
        requires
            db_wf(old(self)@),
            sum_values(old(self)@.records) + output@.output.value <= u64::MAX,
        ensures
            r is Ok <==> !contains_commitment(old(self)@.records, output@.commitment),
            r is Ok ==> final(self)@.records == old(self)@.records.push(
                RecordV {
                    output: output@,
                    status: match coinbase_block_height {
                        Some(h) => OutputStatus::PendingCoinbase(h),
                        None => OutputStatus::EncumberedToBeReceived,
                    },
                    tx_id: Some(tx_id),
                    abandoned: false,
                },
            ),
            r is Err ==> final(self)@ == old(self)@ && r == Err::<(),
                OutputManagerStorageError,
            >(OutputManagerStorageError::DuplicateOutput),
            final(self)@.cipher == old(self)@.cipher,
            final(self)@.known_scripts == old(self)@.known_scripts,
            db_wf(final(self)@),
    {
        proof {
            lemma_sum_values_nonneg(self@.records);
        }
        let status = match coinbase_block_height {
            Some(h) => OutputStatus::PendingCoinbase(h),
            None => OutputStatus::EncumberedToBeReceived,
        };
        self.add_record(output, status, Some(tx_id))
    }

    /// Atomically moves the send inputs from `Unspent` to
    /// `EncumberedToBeSpent` and stores the receive outputs as
    /// `ShortTermEncumbered`, all tied to the transaction. On any failure the
    /// store is unchanged: `ValueNotFound` when a send input is missing or not
    /// spendable, `DuplicateOutput` when a receive output's commitment is
    /// already taken.
    pub fn encumber_outputs(
        &mut self,
        tx_id: u64,
        outputs_to_send: &Vec<DbUnblindedOutput>,
        outputs_to_receive: &Vec<DbUnblindedOutput>,
    ) -> (r: Result<(), OutputManagerStorageError>)
        requires
            db_wf(old(self)@),
            sum_values(old(self)@.records) + sum_outputs(views_of_outputs(outputs_to_receive@))
                <= u64::MAX,
        ensures
            r is Ok <==> spec_all_inputs_unspent(old(self)@.records, views_of_outputs(outputs_to_send@))
                && spec_all_receives_fresh(old(self)@.records, views_of_outputs(outputs_to_receive@)),
            r is Ok ==> final(self)@.records == spec_encumber_model(
                old(self)@.records,
                tx_id,
                views_of_outputs(outputs_to_send@),
                views_of_outputs(outputs_to_receive@),
            ),
            r == Err::<(), OutputManagerStorageError>(OutputManagerStorageError::ValueNotFound)
                <==> !spec_all_inputs_unspent(old(self)@.records, views_of_outputs(outputs_to_send@)),
            r is Err ==> final(self)@ == old(self)@,
            final(self)@.cipher == old(self)@.cipher,
            final(self)@.known_scripts == old(self)@.known_scripts,
            db_wf(final(self)@),
    {
        let ghost orig = self@;
        let ghost send_views = views_of_outputs(outputs_to_send@);
        let ghost recv_views = views_of_outputs(outputs_to_receive@);

        // Validate the send inputs: each must be stored and spendable.
        let mut k: usize = 0;
        while k < outputs_to_send.len()
            invariant
                0 <= k <= outputs_to_send@.len(),
                self@ == orig,
                db_wf(orig),
                send_views == views_of_outputs(outputs_to_send@),
                forall|kk: int|
                    0 <= kk < k ==> exists|i: int|
                        0 <= i < orig.records.len() && orig.records[i].output.commitment == (
                        #[trigger] send_views[kk]).commitment && orig.records[i].status
                            == OutputStatus::Unspent,
            decreases outputs_to_send@.len() - k,
        {
            let c = &outputs_to_send[k].commitment;
            proof {
                assert(send_views[k as int] == outputs_to_send@[k as int]@);
            }
            match self.find_commitment(c.as_slice()) {
                Some(i) => {
                    if !(self.records[i].status == OutputStatus::Unspent) {
                        proof {
                            assert(forall|i2: int|
                                0 <= i2 < orig.records.len() && orig.records[i2].output.commitment
                                    == send_views[k as int].commitment ==> i2 == i);
                            assert(!spec_all_inputs_unspent(orig.records, send_views)) by {
                                if spec_all_inputs_unspent(orig.records, send_views) {
                                    let i2 = choose|i2: int|
                                        0 <= i2 < orig.records.len()
                                            && orig.records[i2].output.commitment
                                            == send_views[k as int].commitment
                                            && orig.records[i2].status == OutputStatus::Unspent;
                                    assert(i2 == i);
                                }
                            }
                        }
                        return Err(OutputManagerStorageError::ValueNotFound);
                    }
                },
                None => {
                    proof {
                        assert(!spec_all_inputs_unspent(orig.records, send_views)) by {
                            if spec_all_inputs_unspent(orig.records, send_views) {
                                let i2 = choose|i2: int|
                                    0 <= i2 < orig.records.len()
                                        && orig.records[i2].output.commitment
                                        == send_views[k as int].commitment
                                        && orig.records[i2].status == OutputStatus::Unspent;
                                assert(contains_commitment(orig.records, send_views[k as int].commitment));
                            }
                        }
                    }
                    return Err(OutputManagerStorageError::ValueNotFound);
                },
            }
            k += 1;
        }

        proof {
            assert(spec_all_inputs_unspent(orig.records, send_views));
        }

        // Validate the receive outputs: commitments must be fresh and
        // pairwise distinct.
        let mut k: usize = 0;
        while k < outputs_to_receive.len()
            invariant
                0 <= k <= outputs_to_receive@.len(),
                self@ == orig,
                db_wf(orig),
                spec_all_inputs_unspent(orig.records, send_views),
                send_views == views_of_outputs(outputs_to_send@),
                recv_views == views_of_outputs(outputs_to_receive@),
                forall|kk: int|
                    0 <= kk < k ==> !contains_commitment(
                        orig.records,
                        (#[trigger] recv_views[kk]).commitment,
                    ),
                forall|k1: int, k2: int|
                    0 <= k1 < k2 < k ==> recv_views[k1].commitment != recv_views[k2].commitment,
            decreases outputs_to_receive@.len() - k,
        {
            let c = &outputs_to_receive[k].commitment;
            proof {
                assert(recv_views[k as int] == outputs_to_receive@[k as int]@);
                assert(spec_all_inputs_unspent(orig.records, send_views));
            }
            if self.find_commitment(c.as_slice()).is_some() {
                proof {
                    assert(!spec_all_receives_fresh(orig.records, recv_views));
                }
                return Err(OutputManagerStorageError::DuplicateOutput);
            }
            let mut k2: usize = 0;
            while k2 < k
                invariant
                    0 <= k2 <= k < outputs_to_receive@.len(),
                    recv_views == views_of_outputs(outputs_to_receive@),
                    send_views == views_of_outputs(outputs_to_send@),
                    db_wf(orig),
                    self@ == orig,
                    spec_all_inputs_unspent(orig.records, send_views),
                    forall|j: int|
                        0 <= j < k2 ==> recv_views[j].commitment != recv_views[k as int].commitment,
                decreases k - k2,
            {
                if bytes_eq(
                    outputs_to_receive[k2].commitment.as_slice(),
                    outputs_to_receive[k].commitment.as_slice(),
                ) {
                    proof {
                        assert(recv_views[k2 as int] == outputs_to_receive@[k2 as int]@);
                        assert(recv_views[k as int] == outputs_to_receive@[k as int]@);
                        assert(!spec_all_receives_fresh(orig.records, recv_views));
                    }
                    return Err(OutputManagerStorageError::DuplicateOutput);
                }
                k2 += 1;
            }
            k += 1;
        }

        // Move each send input to its encumbered state.
        let n = self.records.len();
        let mut i: usize = 0;
        while i < n
            invariant
                0 <= i <= n,
                n == self.records@.len(),
                self@.records.len() == orig.records.len(),
                n == orig.records.len(),
                self@.cipher == orig.cipher,
                self@.known_scripts == orig.known_scripts,
                send_views == views_of_outputs(outputs_to_send@),
                forall|kk: int|
                    0 <= kk < i ==> self@.records[kk] == spec_encumber_record(
                        #[trigger] orig.records[kk],
                        tx_id,
                        send_views,
                    ),
                forall|kk: int| i <= kk < n ==> self@.records[kk] == orig.records[kk],
            decreases n - i,
        {
            let c = clone_bytes(&self.records[i].output.commitment);
            let mut found = false;
            let mut k2: usize = 0;
            while k2 < outputs_to_send.len()
                invariant
                    0 <= k2 <= outputs_to_send@.len(),
                    send_views == views_of_outputs(outputs_to_send@),
                    c@ == orig.records[i as int].output.commitment,
                    0 <= i < orig.records.len(),
                    found ==> contains_output_commitment(send_views, c@),
                    !found ==> forall|j: int| 0 <= j < k2 ==> (#[trigger] send_views[j]).commitment
                        != c@,
                decreases outputs_to_send@.len() - k2,
            {
                if bytes_eq(outputs_to_send[k2].commitment.as_slice(), c.as_slice()) {
                    proof {
                        assert(send_views[k2 as int] == outputs_to_send@[k2 as int]@);
                    }
                    found = true;
                }
                k2 += 1;
            }
            if found {
                let mut rec = self.records[i].clone();
                rec.status = OutputStatus::EncumberedToBeSpent;
                rec.tx_id = Some(tx_id);
                self.records.set(i, rec);
            }
            i += 1;
        }
        proof {
            assert(self@.records =~= orig.records.map_values(
                |r: RecordV| spec_encumber_record(r, tx_id, send_views),
            ));
        }
        let ghost transformed = self@.records;

        // Store the receive outputs as short-term encumbered.
        let mut k: usize = 0;
        while k < outputs_to_receive.len()
            invariant
                0 <= k <= outputs_to_receive@.len(),
                recv_views == views_of_outputs(outputs_to_receive@),
                self@.cipher == orig.cipher,
                self@.known_scripts == orig.known_scripts,
                self@.records =~= transformed + recv_views.take(k as int).map_values(
                    |o: DbOutputV| spec_short_term_record(o, tx_id),
                ),
            decreases outputs_to_receive@.len() - k,
        {
            let rec = DbRecord {
                output: outputs_to_receive[k].clone(),
                status: OutputStatus::ShortTermEncumbered,
                tx_id: Some(tx_id),
                abandoned: false,
            };
            let ghost before = self@.records;
            self.records.push(rec);
            proof {
                let g = |o: DbOutputV| spec_short_term_record(o, tx_id);
                assert(recv_views[k as int] == outputs_to_receive@[k as int]@);
                assert(rec@ == spec_short_term_record(recv_views[k as int], tx_id));
                assert(self@.records =~= before.push(rec@));
                assert(recv_views.take(k as int + 1).map_values(g) =~= recv_views.take(
                    k as int,
                ).map_values(g).push(g(recv_views[k as int])));
                assert(self@.records =~= transformed + recv_views.take(k as int + 1).map_values(g));
            }
            k += 1;
        }

        proof {
            assert(recv_views.take(recv_views.len() as int) =~= recv_views);
            assert(self@.records =~= spec_encumber_model(orig.records, tx_id, send_views, recv_views));
            let f = |r: RecordV| spec_encumber_record(r, tx_id, send_views);
            let g = |o: DbOutputV| spec_short_term_record(o, tx_id);
            assert(forall|r: RecordV| (#[trigger] f(r)).output == r.output);
            lemma_sum_values_map(orig.records, f);
            lemma_unique_map(orig.records, f);
            lemma_sum_values_append(orig.records.map_values(f), recv_views.map_values(g));
            lemma_sum_short_term_records(recv_views, tx_id);
            assert forall|a: int, b: int|
                0 <= a < b < self@.records.len() implies self@.records[a].output.commitment
                != self@.records[b].output.commitment by {
                let m = orig.records.len();
                if a < m && b >= m {
                    assert(self@.records[a].output.commitment == orig.records[a].output.commitment);
                    assert(self@.records[b] == g(recv_views[b - m]));
                    assert(!contains_commitment(orig.records, recv_views[b - m].commitment));
                }
                if a >= m {
                    assert(self@.records[a] == g(recv_views[a - m]));
                    assert(self@.records[b] == g(recv_views[b - m]));
                }
            }
        }
        Ok(())
    }

    /// Promotes the short-term encumbered outputs of a transaction to
    /// `EncumberedToBeReceived`, making the encumbrance official.
    pub fn confirm_encumbered_outputs(&mut self, tx_id: u64)
        requires
            db_wf(old(self)@),
        ensures
            final(self)@.records == old(self)@.records.map_values(
                |r: RecordV| spec_confirm_record(r, tx_id),
            ),
            final(self)@.cipher == old(self)@.cipher,
            final(self)@.known_scripts == old(self)@.known_scripts,
            sum_values(final(self)@.records) == sum_values(old(self)@.records),
            db_wf(final(self)@),
    {
        let ghost orig = self@;
        let n = self.records.len();
        let mut i: usize = 0;
        while i < n
            invariant
                0 <= i <= n,
                n == self.records@.len(),
                self@.records.len() == orig.records.len(),
                n == orig.records.len(),
                self@.cipher == orig.cipher,
                self@.known_scripts == orig.known_scripts,
                forall|kk: int|
                    0 <= kk < i ==> self@.records[kk] == spec_confirm_record(
                        #[trigger] orig.records[kk],
                        tx_id,
                    ),
                forall|kk: int| i <= kk < n ==> self@.records[kk] == orig.records[kk],
            decreases n - i,
        {
            let is_short_term = self.records[i].status == OutputStatus::ShortTermEncumbered;
            let is_tx = match self.records[i].tx_id {
                Some(t) => t == tx_id,
                None => false,
            };
            if is_short_term && is_tx {
                let mut rec = self.records[i].clone();
                rec.status = OutputStatus::EncumberedToBeReceived;
                self.records.set(i, rec);
            }
            i += 1;
        }
        proof {
            let f = |r: RecordV| spec_confirm_record(r, tx_id);
            assert(self@.records =~= orig.records.map_values(f));
            assert(forall|r: RecordV| (#[trigger] f(r)).output == r.output);
            lemma_sum_values_map(orig.records, f);
            lemma_unique_map(orig.records, f);
        }
    }

    /// Cancels a pending transaction: its inputs return to `Unspent`, its
    /// short-term outputs are deleted, and its inbound outputs are stashed as
    /// `CancelledInbound`. Fails with `ValueNotFound` exactly when no record
    /// belongs to the transaction.
    pub fn cancel_pending_transaction_outputs(&mut self, tx_id: u64) -> (r: Result<
        (),
        OutputManagerStorageError,
    >)
        requires
            db_wf(old(self)@),
        ensures
            r is Ok <==> spec_has_cancellable(old(self)@.records, tx_id),
            r is Ok ==> final(self)@.records == spec_cancel_model(old(self)@.records, tx_id),
            r is Err ==> final(self)@ == old(self)@ && r == Err::<(),
                OutputManagerStorageError,
            >(OutputManagerStorageError::ValueNotFound),
            final(self)@.cipher == old(self)@.cipher,
            final(self)@.known_scripts == old(self)@.known_scripts,
            db_wf(final(self)@),
    {
        let ghost orig = self@;
        let mut newv: Vec<DbRecord> = Vec::new();
        let mut found = false;
        let n = self.records.len();
        let mut i: usize = 0;
        while i < n
            invariant
                0 <= i <= n,
                n == self.records@.len(),
                self@ == orig,
                newv@.map_values(|rec: DbRecord| rec@) =~= spec_cancel_model(
                    orig.records.take(i as int),
                    tx_id,
                ),
                found ==> spec_has_cancellable(orig.records, tx_id),
                !found ==> forall|j: int|
                    0 <= j < i ==> !spec_cancellable(#[trigger] orig.records[j], tx_id),
            decreases n - i,
        {
            proof {
                assert(orig.records.take(i as int + 1).drop_last() =~= orig.records.take(i as int));
                assert(orig.records.take(i as int + 1).last() == orig.records[i as int]);
            }
            let is_tx = match self.records[i].tx_id {
                Some(t) => t == tx_id,
                None => false,
            };
            let touchable = is_tx && match self.records[i].status {
                OutputStatus::EncumberedToBeSpent => true,
                OutputStatus::ShortTermEncumbered => true,
                OutputStatus::EncumberedToBeReceived => true,
                OutputStatus::PendingCoinbase(_) => true,
                _ => false,
            };
            let ghost before = newv@.map_values(|rec: DbRecord| rec@);
            if touchable {
                found = true;
                match self.records[i].status {
                    OutputStatus::EncumberedToBeSpent => {
                        let mut rec = self.records[i].clone();
                        rec.status = OutputStatus::Unspent;
                        rec.tx_id = None;
                        newv.push(rec);
                    },
                    OutputStatus::ShortTermEncumbered => {},
                    _ => {
                        let mut rec = self.records[i].clone();
                        rec.status = OutputStatus::CancelledInbound;
                        newv.push(rec);
                    },
                }
            } else {
                newv.push(self.records[i].clone());
            }
            proof {
                assert(newv@.map_values(|rec: DbRecord| rec@) =~= spec_cancel_model(
                    orig.records.take(i as int + 1),
                    tx_id,
                ));
            }
            i += 1;
        }
        proof {
            assert(orig.records.take(n as int) =~= orig.records);
        }
        if found {
            self.records = newv;
            proof {
                lemma_cancel_model_wf(orig.records, tx_id);
            }
            Ok(())
        } else {
            proof {
                assert(!spec_has_cancellable(orig.records, tx_id)) by {
                    if spec_has_cancellable(orig.records, tx_id) {
                        let j = choose|j: int|
                            0 <= j < orig.records.len() && spec_cancellable(
                                #[trigger] orig.records[j],
                                tx_id,
                            );
                    }
                }
            }
            Err(OutputManagerStorageError::ValueNotFound)
        }
    }

    /// Whether a short-term encumbrance for the given transaction exists.
    fn has_short_term_with_tx(&self, tx_id: u64) -> (r: bool)
        ensures
            r == spec_stale_tx(self@.records, tx_id),
    {
        let n = self.records.len();
        let mut i: usize = 0;
        while i < n
            invariant
                0 <= i <= n,
                n == self.records@.len(),
                forall|j: int|
                    0 <= j < i ==> !((#[trigger] self@.records[j]).status
                        == OutputStatus::ShortTermEncumbered && self@.records[j].tx_id == Some(
                        tx_id,
                    )),
            decreases n - i,
        {
            let is_tx = match self.records[i].tx_id {
                Some(t) => t == tx_id,
                None => false,
            };
            if self.records[i].status == OutputStatus::ShortTermEncumbered && is_tx {
                proof {
                    assert((#[trigger] self@.records[i as int]).status
                        == OutputStatus::ShortTermEncumbered && self@.records[i as int].tx_id
                        == Some(tx_id));
                }
                return true;
            }
            i += 1;
        }
        proof {
            assert(!spec_stale_tx(self@.records, tx_id)) by {
                if spec_stale_tx(self@.records, tx_id) {
                    let j = choose|j: int|
                        0 <= j < self@.records.len() && (#[trigger] self@.records[j]).status
                            == OutputStatus::ShortTermEncumbered && self@.records[j].tx_id == Some(
                            tx_id,
                        );
                }
            }
        }
        false
    }

    /// The startup sweep: drops every short-term encumbrance and returns the
    /// inputs those transactions had reserved to `Unspent`.
    pub fn clear_short_term_encumberances(&mut self)
        requires
            db_wf(old(self)@),
        ensures
            final(self)@.records == spec_clear_short_term_model(
                old(self)@.records,
                old(self)@.records,
            ),
            final(self)@.cipher == old(self)@.cipher,
            final(self)@.known_scripts == old(self)@.known_scripts,
            db_wf(final(self)@),
    {
        let ghost orig = self@;
        let mut newv: Vec<DbRecord> = Vec::new();
        let n = self.records.len();
        let mut i: usize = 0;
        while i < n
            invariant
                0 <= i <= n,
                n == self.records@.len(),
                self@ == orig,
                newv@.map_values(|rec: DbRecord| rec@) =~= spec_clear_short_term_model(
                    orig.records.take(i as int),
                    orig.records,
                ),
            decreases n - i,
        {
            proof {
                assert(orig.records.take(i as int + 1).drop_last() =~= orig.records.take(i as int));
                assert(orig.records.take(i as int + 1).last() == orig.records[i as int]);
            }
            if self.records[i].status == OutputStatus::ShortTermEncumbered {
                // dropped
            } else {
                let stale = match self.records[i].tx_id {
                    Some(t) => self.has_short_term_with_tx(t),
                    None => false,
                };
                if self.records[i].status == OutputStatus::EncumberedToBeSpent && stale {
                    let mut rec = self.records[i].clone();
                    rec.status = OutputStatus::Unspent;
                    rec.tx_id = None;
                    newv.push(rec);
                } else {
                    newv.push(self.records[i].clone());
                }
            }
            proof {
                assert(newv@.map_values(|rec: DbRecord| rec@) =~= spec_clear_short_term_model(
                    orig.records.take(i as int + 1),
                    orig.records,
                ));
            }
            i += 1;
        }
        proof {
            assert(orig.records.take(n as int) =~= orig.records);
            lemma_clear_short_term_model_wf(orig.records, orig.records);
        }
        self.records = newv;
    }

    /// Restores the cancelled inbound outputs of a transaction to
    /// `EncumberedToBeReceived`. Fails with `ValueNotFound` exactly when the
    /// transaction has no cancelled inbound output.
    pub fn reinstate_cancelled_inbound_output(&mut self, tx_id: u64) -> (r: Result<
        (),
        OutputManagerStorageError,
    >)
        requires
            db_wf(old(self)@),
        ensures
            r is Ok <==> exists|i: int|
                0 <= i < old(self)@.records.len() && (#[trigger] old(self)@.records[i]).status
                    == OutputStatus::CancelledInbound && old(self)@.records[i].tx_id == Some(tx_id),
            r is Ok ==> final(self)@.records == old(self)@.records.map_values(
                |rec: RecordV| spec_reinstate_record(rec, tx_id),
            ),
            r is Err ==> final(self)@ == old(self)@ && r == Err::<(),
                OutputManagerStorageError,
            >(OutputManagerStorageError::ValueNotFound),
            final(self)@.cipher == old(self)@.cipher,
            final(self)@.known_scripts == old(self)@.known_scripts,
            db_wf(final(self)@),
    {
        let ghost orig = self@;
        let n = self.records.len();
        let mut found = false;
        let mut i: usize = 0;
        while i < n
            invariant
                0 <= i <= n,
                n == self.records@.len(),
                self@ == orig,
                found ==> exists|j: int|
                    0 <= j < orig.records.len() && (#[trigger] orig.records[j]).status
                        == OutputStatus::CancelledInbound && orig.records[j].tx_id == Some(tx_id),
                !found ==> forall|j: int|
                    0 <= j < i ==> !((#[trigger] orig.records[j]).status
                        == OutputStatus::CancelledInbound && orig.records[j].tx_id == Some(tx_id)),
            decreases n - i,
        {
            let is_tx = match self.records[i].tx_id {
                Some(t) => t == tx_id,
                None => false,
            };
            if self.records[i].status == OutputStatus::CancelledInbound && is_tx {
                proof {
                    assert((#[trigger] orig.records[i as int]).status
                        == OutputStatus::CancelledInbound && orig.records[i as int].tx_id == Some(
                        tx_id,
                    ));
                }
                found = true;
            }
            i += 1;
        }
        if !found {
            proof {
                assert(!exists|j: int|
                    0 <= j < orig.records.len() && (#[trigger] orig.records[j]).status
                        == OutputStatus::CancelledInbound && orig.records[j].tx_id == Some(tx_id))
                    by {
                    if exists|j: int|
                        0 <= j < orig.records.len() && (#[trigger] orig.records[j]).status
                            == OutputStatus::CancelledInbound && orig.records[j].tx_id == Some(
                            tx_id,
                        ) {
                        let j = choose|j: int|
                            0 <= j < orig.records.len() && (#[trigger] orig.records[j]).status
                                == OutputStatus::CancelledInbound && orig.records[j].tx_id == Some(
                                tx_id,
                            );
                    }
                }
            }
            return Err(OutputManagerStorageError::ValueNotFound);
        }
        let mut i: usize = 0;
        while i < n
            invariant
                0 <= i <= n,
                n == self.records@.len(),
                self@.records.len() == orig.records.len(),
                n == orig.records.len(),
                self@.cipher == orig.cipher,
                self@.known_scripts == orig.known_scripts,
                forall|kk: int|
                    0 <= kk < i ==> self@.records[kk] == spec_reinstate_record(
                        #[trigger] orig.records[kk],
                        tx_id,
                    ),
                forall|kk: int| i <= kk < n ==> self@.records[kk] == orig.records[kk],
            decreases n - i,
        {
            let is_tx = match self.records[i].tx_id {
                Some(t) => t == tx_id,
                None => false,
            };
            if self.records[i].status == OutputStatus::CancelledInbound && is_tx {
                let mut rec = self.records[i].clone();
                rec.status = OutputStatus::EncumberedToBeReceived;
                self.records.set(i, rec);
            }
            i += 1;
        }
        proof {
            let f = |rec: RecordV| spec_reinstate_record(rec, tx_id);
            assert(self@.records =~= orig.records.map_values(f));
            assert(forall|rec: RecordV| (#[trigger] f(rec)).output == rec.output);
            lemma_sum_values_map(orig.records, f);
            lemma_unique_map(orig.records, f);
        }
        Ok(())
    }

    /// Marks the pending coinbase outputs of a transaction as abandoned, or
    /// clears the mark.
    pub fn set_coinbase_abandoned(&mut self, tx_id: u64, abandoned: bool)
        requires
            db_wf(old(self)@),
        ensures
            final(self)@.records == old(self)@.records.map_values(
                |rec: RecordV| spec_set_abandoned_record(rec, tx_id, abandoned),
            ),
            final(self)@.cipher == old(self)@.cipher,
            final(self)@.known_scripts == old(self)@.known_scripts,
            db_wf(final(self)@),
    {
        let ghost orig = self@;
        let n = self.records.len();
        let mut i: usize = 0;
        while i < n
            invariant
                0 <= i <= n,
                n == self.records@.len(),
                self@.records.len() == orig.records.len(),
                n == orig.records.len(),
                self@.cipher == orig.cipher,
                self@.known_scripts == orig.known_scripts,
                forall|kk: int|
                    0 <= kk < i ==> self@.records[kk] == spec_set_abandoned_record(
                        #[trigger] orig.records[kk],
                        tx_id,
                        abandoned,
                    ),
                forall|kk: int| i <= kk < n ==> self@.records[kk] == orig.records[kk],
            decreases n - i,
        {
            let is_tx = match self.records[i].tx_id {
                Some(t) => t == tx_id,
                None => false,
            };
            let is_coinbase = match self.records[i].status {
                OutputStatus::PendingCoinbase(_) => true,
                _ => false,
            };
            if is_coinbase && is_tx {
                let mut rec = self.records[i].clone();
                rec.abandoned = abandoned;
                self.records.set(i, rec);
            }
            i += 1;
        }
        proof {
            let f = |rec: RecordV| spec_set_abandoned_record(rec, tx_id, abandoned);
            assert(self@.records =~= orig.records.map_values(f));
            assert(forall|rec: RecordV| (#[trigger] f(rec)).output == rec.output);
            lemma_sum_values_map(orig.records, f);
            lemma_unique_map(orig.records, f);
        }
    }

    /// Removes every pending coinbase at the given block height. Fails with
    /// `ValueNotFound` exactly when there is none.
    pub fn clear_pending_coinbase_transaction_at_block_height(&mut self, block_height: u64) -> (r:
        Result<(), OutputManagerStorageError>)
        requires
            db_wf(old(self)@),
        ensures
            r is Ok <==> spec_has_coinbase_at_height(old(self)@.records, block_height),
            r is Ok ==> final(self)@.records == spec_clear_coinbase_model(
                old(self)@.records,
                block_height,
            ),
            r is Err ==> final(self)@ == old(self)@ && r == Err::<(),
                OutputManagerStorageError,
            >(OutputManagerStorageError::ValueNotFound),
            final(self)@.cipher == old(self)@.cipher,
            final(self)@.known_scripts == old(self)@.known_scripts,
            db_wf(final(self)@),
    {
        let ghost orig = self@;
        let mut newv: Vec<DbRecord> = Vec::new();
        let mut found = false;
        let n = self.records.len();
        let mut i: usize = 0;
        while i < n
            invariant
                0 <= i <= n,
                n == self.records@.len(),
                self@ == orig,
                newv@.map_values(|rec: DbRecord| rec@) =~= spec_clear_coinbase_model(
                    orig.records.take(i as int),
                    block_height,
                ),
                found ==> spec_has_coinbase_at_height(orig.records, block_height),
                !found ==> forall|j: int|
                    0 <= j < i ==> (#[trigger] orig.records[j]).status
                        != OutputStatus::PendingCoinbase(block_height),
            decreases n - i,
        {
            proof {
                assert(orig.records.take(i as int + 1).drop_last() =~= orig.records.take(i as int));
                assert(orig.records.take(i as int + 1).last() == orig.records[i as int]);
            }
            if self.records[i].status == OutputStatus::PendingCoinbase(block_height) {
                found = true;
            } else {
                newv.push(self.records[i].clone());
            }
            proof {
                assert(newv@.map_values(|rec: DbRecord| rec@) =~= spec_clear_coinbase_model(
                    orig.records.take(i as int + 1),
                    block_height,
                ));
            }
            i += 1;
        }
        proof {
            assert(orig.records.take(n as int) =~= orig.records);
        }
        if found {
            self.records = newv;
            proof {
                lemma_clear_coinbase_model_wf(orig.records, block_height);
            }
            Ok(())
        } else {
            proof {
                assert(!spec_has_coinbase_at_height(orig.records, block_height)) by {
                    if spec_has_coinbase_at_height(orig.records, block_height) {
                        let j = choose|j: int|
                            0 <= j < orig.records.len() && (#[trigger] orig.records[j]).status
                                == OutputStatus::PendingCoinbase(block_height);
                    }
                }
            }
            Err(OutputManagerStorageError::ValueNotFound)
        }
    }

    /// Removes the record carrying the given commitment. Fails with
    /// `ValueNotFound` exactly when no record carries it.
    pub fn remove_output_by_commitment(&mut self, commitment: &[u8]) -> (r: Result<
        (),
        OutputManagerStorageError,
    >)
        requires
            db_wf(old(self)@),
        ensures
            r is Ok <==> contains_commitment(old(self)@.records, commitment@),
            r is Ok ==> exists|i: int|
                0 <= i < old(self)@.records.len() && (#[trigger] old(self)@.records[i]).output.commitment
                    == commitment@ && final(self)@.records == old(self)@.records.remove(i),
            r is Ok ==> !contains_commitment(final(self)@.records, commitment@),
            forall|c2: Seq<u8>|
                c2 != commitment@ ==> (contains_commitment(final(self)@.records, c2)
                    <==> contains_commitment(old(self)@.records, c2)),
            r is Err ==> final(self)@ == old(self)@ && r == Err::<(),
                OutputManagerStorageError,
            >(OutputManagerStorageError::ValueNotFound),
            final(self)@.cipher == old(self)@.cipher,
            final(self)@.known_scripts == old(self)@.known_scripts,
            db_wf(final(self)@),
    {
        let ghost orig = self@;
        match self.find_commitment(commitment) {
            None => Err(OutputManagerStorageError::ValueNotFound),
            Some(i) => {
                self.records.remove(i);
                proof {
                    assert(self@.records =~= orig.records.remove(i as int));
                    lemma_sum_values_remove(orig.records, i as int);
                    lemma_sum_values_nonneg(self@.records);
                    let rem = orig.records.remove(i as int);
                    assert forall|a: int, b: int|
                        0 <= a < b < rem.len() implies rem[a].output.commitment
                        != rem[b].output.commitment by {
                        let a0 = if a < i as int { a } else { a + 1 };
                        let b0 = if b < i as int { b } else { b + 1 };
                        assert(rem[a] == orig.records[a0]);
                        assert(rem[b] == orig.records[b0]);
                    }
                    assert(!contains_commitment(rem, commitment@)) by {
                        if contains_commitment(rem, commitment@) {
                            let j = choose|j: int|
                                0 <= j < rem.len() && rem[j].output.commitment == commitment@;
                            let j0 = if j < i as int { j } else { j + 1 };
                            assert(rem[j] == orig.records[j0]);
                        }
                    }
                    assert forall|c2: Seq<u8>| c2 != commitment@ implies (contains_commitment(
                        rem,
                        c2,
                    ) <==> contains_commitment(orig.records, c2)) by {
                        if contains_commitment(rem, c2) {
                            let j = choose|j: int|
                                0 <= j < rem.len() && rem[j].output.commitment == c2;
                            let j0 = if j < i as int { j } else { j + 1 };
                            assert(rem[j] == orig.records[j0]);
                            assert(contains_commitment(orig.records, c2));
                        }
                        if contains_commitment(orig.records, c2) {
                            let j0 = choose|j0: int|
                                0 <= j0 < orig.records.len() && orig.records[j0].output.commitment
                                    == c2;
                            let j = if j0 < i as int { j0 } else { j0 - 1 };
                            assert(j0 != i as int);
                            assert(rem[j] == orig.records[j0]);
                            assert(contains_commitment(rem, c2));
                        }
                    }
                }
                Ok(())
            },
        }
    }

    /// Replaces the metadata signature of the stored output carrying the
    /// given on-chain output's commitment. Fails with `ValueNotFound` exactly
    /// when no record carries it.
    pub fn update_output_metadata_signature(&mut self, output: &crate::output::TransactionOutput)
        -> (r: Result<(), OutputManagerStorageError>)
        requires
            db_wf(old(self)@),
        ensures
            r is Ok <==> contains_commitment(old(self)@.records, output@.commitment),
            r is Ok ==> exists|i: int|
                0 <= i < old(self)@.records.len() && (#[trigger] old(self)@.records[i]).output.commitment
                    == output@.commitment && final(self)@.records == old(self)@.records.update(
                    i,
                    spec_with_signature(old(self)@.records[i], output@.metadata_signature),
                ),
            r is Err ==> final(self)@ == old(self)@ && r == Err::<(),
                OutputManagerStorageError,
            >(OutputManagerStorageError::ValueNotFound),
            final(self)@.cipher == old(self)@.cipher,
            final(self)@.known_scripts == old(self)@.known_scripts,
            db_wf(final(self)@),
    {
        let ghost orig = self@;
        match self.find_commitment(output.commitment.as_slice()) {
            None => Err(OutputManagerStorageError::ValueNotFound),
            Some(i) => {
                let mut rec = self.records[i].clone();
                rec.output.unblinded_output.metadata_signature = output.metadata_signature.clone();
                proof {
                    assert(rec@ == spec_with_signature(orig.records[i as int], output@.metadata_signature));
                }
                self.records.set(i, rec);
                proof {
                    assert(self@.records =~= orig.records.update(
                        i as int,
                        spec_with_signature(orig.records[i as int], output@.metadata_signature),
                    ));
                    lemma_sum_values_update(
                        orig.records,
                        i as int,
                        spec_with_signature(orig.records[i as int], output@.metadata_signature),
                    );
                }
                Ok(())
            },
        }
    }

    /// Encrypts the store under the given cipher key. Fails exactly when a
    /// cipher is already applied.
    pub fn apply_encryption(&mut self, cipher: Vec<u8>) -> (r: Result<
        (),
        OutputManagerStorageError,
    >)
        requires
            db_wf(old(self)@),
        ensures
            r is Ok <==> old(self)@.cipher is None,
            r is Ok ==> final(self)@ == (DbV { cipher: Some(cipher@), ..old(self)@ }),
            r is Err ==> final(self)@ == old(self)@ && (r matches Err(e) && e is StorageError),
            db_wf(final(self)@),
    {
        match self.cipher {
            Some(_) => Err(
                OutputManagerStorageError::StorageError(
                    <String as vstd::string::StringExecFns>::from_str("store is already encrypted"),
                ),
            ),
            None => {
                self.cipher = Some(cipher);
                Ok(())
            },
        }
    }

    /// Removes the cipher; the store is left unencrypted.
    pub fn remove_encryption(&mut self)
        requires
            db_wf(old(self)@),
        ensures
            final(self)@ == (DbV { cipher: None, ..old(self)@ }),
            db_wf(final(self)@),
    {
        self.cipher = None;
    }

    /// The outputs in the given pool, in store order.
    fn fetch_outputs_by_status(&self, status: OutputStatus) -> (r: Vec<DbUnblindedOutput>)
        ensures
            views_of_outputs(r@) == spec_outputs_with_status(self@.records, status),
    {
        let mut r: Vec<DbUnblindedOutput> = Vec::new();
        let n = self.records.len();
        let mut i: usize = 0;
        while i < n
            invariant
                0 <= i <= n,
                n == self.records@.len(),
                views_of_outputs(r@) =~= spec_outputs_with_status(
                    self@.records.take(i as int),
                    status,
                ),
            decreases n - i,
        {
            proof {
                assert(self@.records.take(i as int + 1).drop_last() =~= self@.records.take(i as int));
                assert(self@.records.take(i as int + 1).last() == self@.records[i as int]);
            }
            if self.records[i].status == status {
                r.push(self.records[i].output.clone());
            }
            proof {
                assert(views_of_outputs(r@) =~= spec_outputs_with_status(
                    self@.records.take(i as int + 1),
                    status,
                ));
            }
            i += 1;
        }
        proof {
            assert(self@.records.take(n as int) =~= self@.records);
        }
        r
    }

    /// All spent outputs.
    pub fn fetch_spent_outputs(&self) -> (r: Vec<DbUnblindedOutput>)
        ensures
            views_of_outputs(r@) == spec_outputs_with_status(self@.records, OutputStatus::Spent),
    {
        self.fetch_outputs_by_status(OutputStatus::Spent)
    }

    /// All outputs the last validation disproved.
    pub fn get_invalid_outputs(&self) -> (r: Vec<DbUnblindedOutput>)
        ensures
            views_of_outputs(r@) == spec_outputs_with_status(self@.records, OutputStatus::Invalid),
    {
        self.fetch_outputs_by_status(OutputStatus::Invalid)
    }

    /// All spendable outputs, sorted by value ascending with ties broken by
    /// the commitment bytes.
    pub fn fetch_sorted_unspent_outputs(&self) -> (r: Vec<DbUnblindedOutput>)
        ensures
            sorted_by_value(views_of_outputs(r@)),
            sorted_by_value_and_commitment(views_of_outputs(r@)),
            views_of_outputs(r@) == spec_value_sorted(
                spec_outputs_with_status(self@.records, OutputStatus::Unspent),
            ),
            views_of_outputs(r@).to_multiset() == spec_outputs_with_status(
                self@.records,
                OutputStatus::Unspent,
            ).to_multiset(),
            sum_outputs(views_of_outputs(r@)) == sum_outputs(
                spec_outputs_with_status(self@.records, OutputStatus::Unspent),
            ),
    {
        let unsorted = self.fetch_outputs_by_status(OutputStatus::Unspent);
        let ghost target = spec_outputs_with_status(self@.records, OutputStatus::Unspent);
        let mut r: Vec<DbUnblindedOutput> = Vec::new();
        let n = unsorted.len();
        let mut i: usize = 0;
        proof {
            broadcast use vstd::seq_lib::group_to_multiset_ensures;
        }
        while i < n
            invariant
                0 <= i <= n,
                n == unsorted@.len(),
                views_of_outputs(unsorted@) == target,
                sorted_by_value(views_of_outputs(r@)),
                sorted_by_value_and_commitment(views_of_outputs(r@)),
                views_of_outputs(r@) =~= spec_value_sorted(
                    views_of_outputs(unsorted@).take(i as int),
                ),
                views_of_outputs(r@).to_multiset() =~= views_of_outputs(
                    unsorted@,
                ).take(i as int).to_multiset(),
                sum_outputs(views_of_outputs(r@)) == sum_outputs(
                    views_of_outputs(unsorted@).take(i as int),
                ),
            decreases n - i,
        {
            proof {
                broadcast use vstd::seq_lib::group_to_multiset_ensures;

                let tv = views_of_outputs(unsorted@);
                assert(tv.take(i as int + 1).drop_last() =~= tv.take(i as int));
                assert(tv.take(i as int + 1).last() == tv[i as int]);
                assert(tv.take(i as int + 1) =~= tv.take(i as int).push(tv[i as int]));
                lemma_sum_outputs_insert(tv.take(i as int), i as int, tv[i as int]);
                assert(tv.take(i as int).insert(i as int, tv[i as int]) =~= tv.take(i as int).push(
                    tv[i as int],
                ));
            }
            let x = unsorted[i].clone();
            Self::sorted_insert(&mut r, x);
            i += 1;
        }
        proof {
            assert(views_of_outputs(unsorted@).take(n as int) =~= views_of_outputs(unsorted@));
        }
        r
    }

    /// Inserts an output into a fetch-ordered vector, after everything the
    /// order puts at or before it.
    fn sorted_insert(v: &mut Vec<DbUnblindedOutput>, x: DbUnblindedOutput)
        requires
            sorted_by_value_and_commitment(views_of_outputs(old(v)@)),
        ensures
            sorted_by_value_and_commitment(views_of_outputs(final(v)@)),
            sorted_by_value(views_of_outputs(final(v)@)),
            views_of_outputs(final(v)@) == spec_sorted_insert(views_of_outputs(old(v)@), x@),
            views_of_outputs(final(v)@).to_multiset() == views_of_outputs(
                old(v)@,
            ).to_multiset().insert(x@),
            sum_outputs(views_of_outputs(final(v)@)) == sum_outputs(views_of_outputs(old(v)@))
                + x@.output.value,
    {
        let ghost before = views_of_outputs(v@);
        let n = v.len();
        let mut p: usize = 0;
        while p < n
            invariant_except_break
                0 <= p <= n,
                n == v@.len(),
                views_of_outputs(v@) == before,
                forall|j: int| 0 <= j < p ==> le_output(#[trigger] before[j], x@),
            ensures
                0 <= p <= n,
                n == v@.len(),
                views_of_outputs(v@) == before,
                forall|j: int| 0 <= j < p ==> le_output(#[trigger] before[j], x@),
                p < n ==> !le_output(before[p as int], x@),
            decreases n - p,
        {
            let at_or_before = v[p].unblinded_output.value < x.unblinded_output.value || (
            v[p].unblinded_output.value == x.unblinded_output.value && bytes_lex_le(
                v[p].commitment.as_slice(),
                x.commitment.as_slice(),
            ));
            if at_or_before {
                proof {
                    assert(le_output(before[p as int], x@));
                }
                p += 1;
            } else {
                proof {
                    assert(!le_output(before[p as int], x@));
                }
                break;
            }
        }
        v.insert(p, x);
        proof {
            assert(views_of_outputs(v@) =~= before.insert(p as int, x@));
            lemma_sorted_insert_at(before, x@, p as int);
            lemma_sum_outputs_insert(before, p as int, x@);
            lemma_to_multiset_insert(before, p as int, x@);
            let after = before.insert(p as int, x@);
            assert forall|a: int, b: int|
                0 <= a < b < after.len() implies le_output(#[trigger] after[a], #[trigger] after[b]) by {
                let a0 = if a < p as int { a } else { a - 1 };
                let b0 = if b < p as int { b } else { b - 1 };
                if a == p as int {
                    assert(after[b] == before[b0]);
                    assert(b0 >= p as int);
                    lemma_le_output_total(x@, before[b0]);
                    if !le_output(x@, before[b0]) {
                        if b0 > p as int {
                            lemma_le_output_trans(before[p as int], before[b0], x@);
                        }
                        assert(false);
                    }
                } else if b == p as int {
                    assert(after[a] == before[a0]);
                } else {
                    assert(after[a] == before[a0]);
                    assert(after[b] == before[b0]);
                }
            }
            assert forall|a: int, b: int|
                0 <= a < b < after.len() implies after[a].output.value <= after[b].output.value by {
                assert(le_output(after[a], after[b]));
            }
        }
    }

    /// The pool of the record carrying a commitment, if any.
    pub fn status_of_commitment(&self, commitment: &[u8]) -> (r: Option<OutputStatus>)
        ensures
            match r {
                Some(st) => exists|i: int|
                    0 <= i < self@.records.len() && (#[trigger] self@.records[i]).output.commitment
                        == commitment@ && self@.records[i].status == st,
                None => !contains_commitment(self@.records, commitment@),
            },
    {
        match self.find_commitment(commitment) {
            Some(i) => {
                proof {
                    assert((#[trigger] self@.records[i as int]).output.commitment == commitment@);
                }
                Some(self.records[i].status)
            },
            None => None,
        }
    }

    /// Moves the record carrying a commitment to the given pool. Fails with
    /// `ValueNotFound` exactly when no record carries it.
    pub fn mark_output_status(&mut self, commitment: &[u8], status: OutputStatus) -> (r: Result<
        (),
        OutputManagerStorageError,
    >)
        requires
            db_wf(old(self)@),
        ensures
            r is Ok <==> contains_commitment(old(self)@.records, commitment@),
            r is Ok ==> final(self)@.records == old(self)@.records.map_values(
                |rec: RecordV| spec_mark_record(rec, commitment@, status),
            ),
            r is Err ==> final(self)@ == old(self)@ && r == Err::<(),
                OutputManagerStorageError,
            >(OutputManagerStorageError::ValueNotFound),
            final(self)@.cipher == old(self)@.cipher,
            final(self)@.known_scripts == old(self)@.known_scripts,
            db_wf(final(self)@),
    {
        let ghost orig = self@;
        match self.find_commitment(commitment) {
            None => Err(OutputManagerStorageError::ValueNotFound),
            Some(found) => {
                let n = self.records.len();
                let mut i: usize = 0;
                while i < n
                    invariant
                        0 <= i <= n,
                        n == self.records@.len(),
                        self@.records.len() == orig.records.len(),
                        n == orig.records.len(),
                        self@.cipher == orig.cipher,
                        self@.known_scripts == orig.known_scripts,
                        forall|kk: int|
                            0 <= kk < i ==> self@.records[kk] == spec_mark_record(
                                #[trigger] orig.records[kk],
                                commitment@,
                                status,
                            ),
                        forall|kk: int| i <= kk < n ==> self@.records[kk] == orig.records[kk],
                    decreases n - i,
                {
                    if bytes_eq(self.records[i].output.commitment.as_slice(), commitment) {
                        let mut rec = self.records[i].clone();
                        rec.status = status;
                        self.records.set(i, rec);
                    }
                    i += 1;
                }
                proof {
                    let f = |rec: RecordV| spec_mark_record(rec, commitment@, status);
                    assert(self@.records =~= orig.records.map_values(f));
                    assert(forall|rec: RecordV| (#[trigger] f(rec)).output == rec.output);
                    lemma_sum_values_map(orig.records, f);
                    lemma_unique_map(orig.records, f);
                }
                Ok(())
            },
        }
    }

    /// The total value stored across all pools.
    pub fn total_value(&self) -> (r: u64)
        requires
            db_wf(self@),
        ensures
            r == sum_values(self@.records),
    {
        let ghost rs = self@.records;
        let mut total: u64 = 0;
        let n = self.records.len();
        let mut i: usize = 0;
        while i < n
            invariant
                0 <= i <= n,
                n == self.records@.len(),
                rs == self@.records,
                db_wf(self@),
                total == sum_values(rs.take(i as int)),
            decreases n - i,
        {
            proof {
                lemma_sum_values_take_step(rs, i as int);
                lemma_sum_values_take_le(rs, i as int + 1);
                lemma_sum_values_nonneg(rs.take(i as int + 1));
            }
            total = total + self.records[i].output.unblinded_output.value;
            i += 1;
        }
        proof {
            assert(rs.take(n as int) =~= rs);
        }
        total
    }

    /// The stored outputs among the queried on-chain hashes, in query order.
    pub fn fetch_utxos(&self, hashes: &Vec<Vec<u8>>) -> (r: Vec<DbUnblindedOutput>)
        ensures
            views_of_outputs(r@) == spec_fetch_by_hash(
                self@.records,
                hashes@.map_values(|h: Vec<u8>| h@),
            ),
    {
        let ghost hv = hashes@.map_values(|h: Vec<u8>| h@);
        let mut r: Vec<DbUnblindedOutput> = Vec::new();
        proof {
            assert(hv.skip(0) =~= hv);
            assert(views_of_outputs(r@) =~= Seq::<DbOutputV>::empty());
        }
        let n = hashes.len();
        let mut i: usize = 0;
        while i < n
            invariant
                0 <= i <= n,
                n == hashes@.len(),
                hv == hashes@.map_values(|h: Vec<u8>| h@),
                spec_fetch_by_hash(self@.records, hv) =~= views_of_outputs(r@)
                    + spec_fetch_by_hash(self@.records, hv.skip(i as int)),
            decreases n - i,
        {
            proof {
                assert(hv.skip(i as int).first() == hv[i as int]);
                assert(hv.skip(i as int).drop_first() =~= hv.skip(i as int + 1));
                assert(hv[i as int] == hashes@[i as int]@);
            }
            match self.find_output_by_hash(hashes[i].as_slice()) {
                Some(o) => {
                    let item = o.clone();
                    let ghost prev = views_of_outputs(r@);
                    r.push(item);
                    proof {
                        assert(views_of_outputs(r@) =~= prev.push(r@[r@.len() - 1]@));
                        let rest = spec_fetch_by_hash(self@.records, hv.skip(i as int + 1));
                        assert(prev + (seq![r@[r@.len() - 1]@] + rest) =~= views_of_outputs(r@)
                            + rest);
                    }
                },
                None => {},
            }
            i += 1;
        }
        proof {
            assert(hv.skip(n as int) =~= Seq::<Seq<u8>>::empty());
            assert(views_of_outputs(r@) + Seq::<DbOutputV>::empty() =~= views_of_outputs(r@));
        }
        r
    }

    /// The first stored output with the given on-chain hash, if any.
    fn find_output_by_hash(&self, hash: &[u8]) -> (r: Option<&DbUnblindedOutput>)
        ensures
            match r {
                Some(o) => spec_output_by_hash(self@.records, hash@) == Some(o@),
                None => spec_output_by_hash(self@.records, hash@) is None,
            },
    {
        let ghost rs = self@.records;
        proof {
            assert(rs.skip(0) =~= rs);
        }
        let n = self.records.len();
        let mut i: usize = 0;
        while i < n
            invariant
                0 <= i <= n,
                n == rs.len(),
                rs == self@.records,
                spec_output_by_hash(rs, hash@) == spec_output_by_hash(rs.skip(i as int), hash@),
            decreases n - i,
        {
            proof {
                assert(rs.skip(i as int).first() == rs[i as int]);
                assert(rs.skip(i as int).drop_first() =~= rs.skip(i as int + 1));
            }
            if bytes_eq(self.records[i].output.hash.as_slice(), hash) {
                return Some(&self.records[i].output);
            }
            i += 1;
        }
        proof {
            assert(rs.skip(n as int) =~= Seq::<RecordV>::empty());
        }
        None
    }

    /// The derived balance of the store, as of the given chain tip.
    pub fn get_balance(&self, current_tip: Option<u64>) -> (r: Balance)
        requires
            db_wf(self@),
        ensures
            r.available_balance == spec_available_balance(self@.records, current_tip),
            r.time_locked_balance == match current_tip {
                Some(t) => Some(spec_time_locked_balance(self@.records, t) as u64),
                None => None::<u64>,
            },
            r.pending_incoming_balance == spec_pending_incoming_balance(self@.records),
            r.pending_outgoing_balance == spec_pending_outgoing_balance(self@.records),
    {
        let ghost rs = self@.records;
        let mut available: u64 = 0;
        let mut locked: u64 = 0;
        let mut incoming: u64 = 0;
        let mut outgoing: u64 = 0;
        let mut short_term: u64 = 0;
        let n = self.records.len();
        let mut i: usize = 0;
        while i < n
            invariant
                0 <= i <= n,
                n == self.records@.len(),
                rs == self@.records,
                db_wf(self@),
                available == sum_matching(rs.take(i as int), spec_available_pred(current_tip)),
                locked == match current_tip {
                    Some(t) => sum_matching(rs.take(i as int), spec_time_locked_pred(t)),
                    None => 0,
                },
                incoming == sum_matching(rs.take(i as int), spec_incoming_pred()),
                outgoing == sum_matching(rs.take(i as int), spec_outgoing_pred()),
                short_term == sum_matching(rs.take(i as int), spec_short_term_pred()),
            decreases n - i,
        {
            proof {
                lemma_sum_matching_take_step(rs, spec_available_pred(current_tip), i as int);
                if let Some(t) = current_tip {
                    lemma_sum_matching_take_step(rs, spec_time_locked_pred(t), i as int);
                    lemma_sum_matching_le(rs.take(i as int + 1), spec_time_locked_pred(t));
                }
                lemma_sum_matching_take_step(rs, spec_incoming_pred(), i as int);
                lemma_sum_matching_take_step(rs, spec_outgoing_pred(), i as int);
                lemma_sum_matching_take_step(rs, spec_short_term_pred(), i as int);
                lemma_sum_matching_le(rs.take(i as int + 1), spec_available_pred(current_tip));
                lemma_sum_matching_le(rs.take(i as int + 1), spec_incoming_pred());
                lemma_sum_matching_le(rs.take(i as int + 1), spec_outgoing_pred());
                lemma_sum_matching_le(rs.take(i as int + 1), spec_short_term_pred());
                lemma_sum_values_take_le(rs, i as int + 1);
                lemma_sum_values_nonneg(rs.take(i as int + 1));
            }
            let v = self.records[i].output.unblinded_output.value;
            let maturity = self.records[i].output.unblinded_output.features.maturity;
            match self.records[i].status {
                OutputStatus::Unspent => {
                    match current_tip {
                        Some(t) => {
                            if maturity <= t {
                                available = available + v;
                            } else {
                                locked = locked + v;
                            }
                        },
                        None => {
                            available = available + v;
                        },
                    }
                },
                OutputStatus::EncumberedToBeReceived => {
                    incoming = incoming + v;
                },
                OutputStatus::PendingCoinbase(_) => {
                    incoming = incoming + v;
                },
                OutputStatus::EncumberedToBeSpent => {
                    outgoing = outgoing + v;
                },
                OutputStatus::ShortTermEncumbered => {
                    short_term = short_term + v;
                },
                _ => {},
            }
            i += 1;
        }
        proof {
            assert(rs.take(n as int) =~= rs);
        }
        let time_locked_balance = match current_tip {
            Some(_) => Some(locked),
            None => None,
        };
        let pending_outgoing_balance = if outgoing >= short_term {
            outgoing - short_term
        } else {
            0
        };
        Balance {
            available_balance: available,
            time_locked_balance,
            pending_incoming_balance: incoming,
            pending_outgoing_balance,
        }
    }

    /// Registers a one-sided payment script to watch for. Fails with
    /// `DuplicateOutput` exactly when the script is already registered.
    pub fn add_known_script(&mut self, known_script: KnownOneSidedPaymentScript) -> (r: Result<
        (),
        OutputManagerStorageError,
    >)
        requires
            db_wf(old(self)@),
        ensures
            r is Ok <==> !(exists|i: int|
                0 <= i < old(self)@.known_scripts.len()
                    && (#[trigger] old(self)@.known_scripts[i]).script == known_script@.script),
            r is Ok ==> final(self)@.known_scripts == old(self)@.known_scripts.push(known_script@),
            r is Err ==> final(self)@ == old(self)@ && r == Err::<(),
                OutputManagerStorageError,
            >(OutputManagerStorageError::DuplicateOutput),
            final(self)@.records == old(self)@.records,
            final(self)@.cipher == old(self)@.cipher,
            db_wf(final(self)@),
    {
        let ghost orig = self@;
        let n = self.known_scripts.len();
        let mut i: usize = 0;
        while i < n
            invariant
                0 <= i <= n,
                n == self.known_scripts@.len(),
                self@ == orig,
                db_wf(orig),
                forall|j: int|
                    0 <= j < i ==> (#[trigger] self@.known_scripts[j]).script
                        != known_script@.script,
            decreases n - i,
        {
            if self.known_scripts[i].script.equals(&known_script.script) {
                proof {
                    assert((#[trigger] self@.known_scripts[i as int]).script
                        == known_script@.script);
                }
                return Err(OutputManagerStorageError::DuplicateOutput);
            }
            i += 1;
        }
        let ghost before = self@.known_scripts;
        self.known_scripts.push(known_script);
        proof {
            assert(self@.known_scripts =~= before.push(known_script@));
        }
        Ok(())
    }

    /// All registered one-sided payment scripts.
    pub fn get_all_known_one_sided_payment_scripts(&self) -> (r: Vec<KnownOneSidedPaymentScript>)
        ensures
            r@.map_values(|s: KnownOneSidedPaymentScript| s@) == self@.known_scripts,
    {
        let mut r: Vec<KnownOneSidedPaymentScript> = Vec::new();
        let n = self.known_scripts.len();
        let mut i: usize = 0;
        while i < n
            invariant
                0 <= i <= n,
                n == self.known_scripts@.len(),
                r@.map_values(|s: KnownOneSidedPaymentScript| s@) =~= self@.known_scripts.take(
                    i as int,
                ),
            decreases n - i,
        {
            let item = self.known_scripts[i].clone();
            let ghost prev = r@;
            r.push(item);
            proof {
                assert(r@ =~= prev.push(item));
                assert(r@.map_values(|s: KnownOneSidedPaymentScript| s@) =~= prev.map_values(
                    |s: KnownOneSidedPaymentScript| s@,
                ).push(item@));
                assert(item@ == self@.known_scripts[i as int]);
                assert(self@.known_scripts.take(i as int + 1) =~= self@.known_scripts.take(
                    i as int,
                ).push(self@.known_scripts[i as int]));
            }
            i += 1;
        }
        proof {
            assert(self@.known_scripts.take(n as int) =~= self@.known_scripts);
        }
        r
    }
}

/// The record a short-term encumbered output becomes once its transaction is
/// confirmed by both parties.
pub open spec fn spec_confirm_record(r: RecordV, tx_id: u64) -> RecordV {
    if r.status == OutputStatus::ShortTermEncumbered && r.tx_id == Some(tx_id) {
        RecordV { status: OutputStatus::EncumberedToBeReceived, ..r }
    } else {
        r
    }
}

/// Whether cancelling the given transaction would touch this record.
pub open spec fn spec_cancellable(r: RecordV, tx_id: u64) -> bool {
    r.tx_id == Some(tx_id) && match r.status {
        OutputStatus::EncumberedToBeSpent => true,
        OutputStatus::ShortTermEncumbered => true,
        OutputStatus::EncumberedToBeReceived => true,
        OutputStatus::PendingCoinbase(_) => true,
        _ => false,
    }
}

/// Whether any record belongs to the given pending transaction.
pub open spec fn spec_has_cancellable(rs: Seq<RecordV>, tx_id: u64) -> bool {
    exists|i: int| 0 <= i < rs.len() && spec_cancellable(#[trigger] rs[i], tx_id)
}

/// The stored records after cancelling a pending transaction: its inputs
/// return to `Unspent`, its short-term outputs are deleted, and its inbound
/// outputs are stashed as `CancelledInbound`.
pub open spec fn spec_cancel_model(rs: Seq<RecordV>, tx_id: u64) -> Seq<RecordV>
    decreases rs.len(),
{
    if rs.len() == 0 {
        Seq::empty()
    } else {
        let rest = spec_cancel_model(rs.drop_last(), tx_id);
        let r = rs.last();
        if r.tx_id == Some(tx_id) {
            match r.status {
                OutputStatus::EncumberedToBeSpent => rest.push(
                    RecordV { status: OutputStatus::Unspent, tx_id: None, ..r },
                ),
                OutputStatus::ShortTermEncumbered => rest,
                OutputStatus::EncumberedToBeReceived => rest.push(
                    RecordV { status: OutputStatus::CancelledInbound, ..r },
                ),
                OutputStatus::PendingCoinbase(_) => rest.push(
                    RecordV { status: OutputStatus::CancelledInbound, ..r },
                ),
                _ => rest.push(r),
            }
        } else {
            rest.push(r)
        }
    }
}

/// Appending one record adds exactly its value to the sum.
pub proof fn lemma_sum_values_push(rs: Seq<RecordV>, r: RecordV)
    ensures
        sum_values(rs.push(r)) == sum_values(rs) + r.output.output.value,
{
    assert(rs.push(r).drop_last() =~= rs);
    assert(rs.push(r).last() == r);
}

/// The cancel model only drops or relabels records, so it keeps commitments
/// unique, never grows the sum, and introduces no commitment.
pub proof fn lemma_cancel_model_wf(rs: Seq<RecordV>, tx_id: u64)
    requires
        commitments_unique(rs),
    ensures
        commitments_unique(spec_cancel_model(rs, tx_id)),
        0 <= sum_values(spec_cancel_model(rs, tx_id)) <= sum_values(rs),
        forall|c: Seq<u8>|
            contains_commitment(#[trigger] spec_cancel_model(rs, tx_id), c) ==> contains_commitment(
                rs,
                c,
            ),
    decreases rs.len(),
{
    lemma_sum_values_nonneg(spec_cancel_model(rs, tx_id));
    if rs.len() > 0 {
        let prefix = rs.drop_last();
        assert(commitments_unique(prefix));
        lemma_cancel_model_wf(prefix, tx_id);
        let rest = spec_cancel_model(prefix, tx_id);
        let r = rs.last();
        lemma_sum_values_push(rest, RecordV { status: OutputStatus::Unspent, tx_id: None, ..r });
        lemma_sum_values_push(rest, RecordV { status: OutputStatus::CancelledInbound, ..r });
        lemma_sum_values_push(rest, r);
        assert(!contains_commitment(prefix, r.output.commitment));
        assert(!contains_commitment(rest, r.output.commitment));
        assert forall|c: Seq<u8>|
            contains_commitment(#[trigger] spec_cancel_model(rs, tx_id), c) implies
            contains_commitment(rs, c) by {
            let m = spec_cancel_model(rs, tx_id);
            let i = choose|i: int| 0 <= i < m.len() && m[i].output.commitment == c;
            if i < rest.len() {
                assert(contains_commitment(rest, c));
                assert(contains_commitment(prefix, c));
                let j = choose|j: int| 0 <= j < prefix.len() && prefix[j].output.commitment == c;
                assert(prefix[j] == rs[j]);
                assert(rs[j].output.commitment == c);
            } else {
                assert(rs[rs.len() - 1].output.commitment == c);
            }
        }
    }
}

/// The record a cancelled inbound output returns to when reinstated.
pub open spec fn spec_reinstate_record(r: RecordV, tx_id: u64) -> RecordV {
    if r.status == OutputStatus::CancelledInbound && r.tx_id == Some(tx_id) {
        RecordV { status: OutputStatus::EncumberedToBeReceived, ..r }
    } else {
        r
    }
}

/// The record of a pending coinbase with its abandoned flag set.
pub open spec fn spec_set_abandoned_record(r: RecordV, tx_id: u64, abandoned: bool) -> RecordV {
    if (r.status matches OutputStatus::PendingCoinbase(_)) && r.tx_id == Some(tx_id) {
        RecordV { abandoned, ..r }
    } else {
        r
    }
}

/// Whether a short-term encumbrance for the given transaction exists.
pub open spec fn spec_stale_tx(full: Seq<RecordV>, tx_id: u64) -> bool {
    exists|i: int|
        0 <= i < full.len() && (#[trigger] full[i]).status == OutputStatus::ShortTermEncumbered
            && full[i].tx_id == Some(tx_id)
}

/// The stored records after the startup sweep: short-term encumbrances are
/// dropped, and the inputs they had reserved return to `Unspent`.
pub open spec fn spec_clear_short_term_model(rs: Seq<RecordV>, full: Seq<RecordV>) -> Seq<RecordV>
    decreases rs.len(),
{
    if rs.len() == 0 {
        Seq::empty()
    } else {
        let rest = spec_clear_short_term_model(rs.drop_last(), full);
        let r = rs.last();
        if r.status == OutputStatus::ShortTermEncumbered {
            rest
        } else if r.status == OutputStatus::EncumberedToBeSpent && (match r.tx_id {
            Some(t) => spec_stale_tx(full, t),
            None => false,
        }) {
            rest.push(RecordV { status: OutputStatus::Unspent, tx_id: None, ..r })
        } else {
            rest.push(r)
        }
    }
}

/// The startup sweep keeps commitments unique and never grows the sum.
pub proof fn lemma_clear_short_term_model_wf(rs: Seq<RecordV>, full: Seq<RecordV>)
    requires
        commitments_unique(rs),
    ensures
        commitments_unique(spec_clear_short_term_model(rs, full)),
        0 <= sum_values(spec_clear_short_term_model(rs, full)) <= sum_values(rs),
        forall|c: Seq<u8>|
            contains_commitment(#[trigger] spec_clear_short_term_model(rs, full), c)
                ==> contains_commitment(rs, c),
    decreases rs.len(),
{
    lemma_sum_values_nonneg(spec_clear_short_term_model(rs, full));
    if rs.len() > 0 {
        let prefix = rs.drop_last();
        assert(commitments_unique(prefix));
        lemma_clear_short_term_model_wf(prefix, full);
        let rest = spec_clear_short_term_model(prefix, full);
        let r = rs.last();
        lemma_sum_values_push(rest, RecordV { status: OutputStatus::Unspent, tx_id: None, ..r });
        lemma_sum_values_push(rest, r);
        assert(!contains_commitment(prefix, r.output.commitment));
        assert(!contains_commitment(rest, r.output.commitment));
        assert forall|c: Seq<u8>|
            contains_commitment(#[trigger] spec_clear_short_term_model(rs, full), c) implies
            contains_commitment(rs, c) by {
            let m = spec_clear_short_term_model(rs, full);
            let i = choose|i: int| 0 <= i < m.len() && m[i].output.commitment == c;
            if i < rest.len() {
                assert(contains_commitment(rest, c));
                assert(contains_commitment(prefix, c));
                let j = choose|j: int| 0 <= j < prefix.len() && prefix[j].output.commitment == c;
                assert(prefix[j] == rs[j]);
                assert(rs[j].output.commitment == c);
            } else {
                assert(rs[rs.len() - 1].output.commitment == c);
            }
        }
    }
}

/// Whether a pending coinbase at the given height exists.
pub open spec fn spec_has_coinbase_at_height(rs: Seq<RecordV>, height: u64) -> bool {
    exists|i: int|
        0 <= i < rs.len() && (#[trigger] rs[i]).status == OutputStatus::PendingCoinbase(height)
}

/// The stored records with every pending coinbase at the height removed.
pub open spec fn spec_clear_coinbase_model(rs: Seq<RecordV>, height: u64) -> Seq<RecordV>
    decreases rs.len(),
{
    if rs.len() == 0 {
        Seq::empty()
    } else {
        let rest = spec_clear_coinbase_model(rs.drop_last(), height);
        let r = rs.last();
        if r.status == OutputStatus::PendingCoinbase(height) {
            rest
        } else {
            rest.push(r)
        }
    }
}

/// Removing pending coinbases keeps commitments unique and never grows the
/// sum.
pub proof fn lemma_clear_coinbase_model_wf(rs: Seq<RecordV>, height: u64)
    requires
        commitments_unique(rs),
    ensures
        commitments_unique(spec_clear_coinbase_model(rs, height)),
        0 <= sum_values(spec_clear_coinbase_model(rs, height)) <= sum_values(rs),
        forall|c: Seq<u8>|
            contains_commitment(#[trigger] spec_clear_coinbase_model(rs, height), c)
                ==> contains_commitment(rs, c),
    decreases rs.len(),
{
    lemma_sum_values_nonneg(spec_clear_coinbase_model(rs, height));
    if rs.len() > 0 {
        let prefix = rs.drop_last();
        assert(commitments_unique(prefix));
        lemma_clear_coinbase_model_wf(prefix, height);
        let rest = spec_clear_coinbase_model(prefix, height);
        let r = rs.last();
        lemma_sum_values_push(rest, r);
        assert(!contains_commitment(prefix, r.output.commitment));
        assert(!contains_commitment(rest, r.output.commitment));
        assert forall|c: Seq<u8>|
            contains_commitment(#[trigger] spec_clear_coinbase_model(rs, height), c) implies
            contains_commitment(rs, c) by {
            let m = spec_clear_coinbase_model(rs, height);
            let i = choose|i: int| 0 <= i < m.len() && m[i].output.commitment == c;
            if i < rest.len() {
                assert(contains_commitment(rest, c));
                assert(contains_commitment(prefix, c));
                let j = choose|j: int| 0 <= j < prefix.len() && prefix[j].output.commitment == c;
                assert(prefix[j] == rs[j]);
                assert(rs[j].output.commitment == c);
            } else {
                assert(rs[rs.len() - 1].output.commitment == c);
            }
        }
    }
}

/// How many records match a predicate.
pub open spec fn count_matching(rs: Seq<RecordV>, pred: spec_fn(RecordV) -> bool) -> int
    decreases rs.len(),
{
    if rs.len() == 0 {
        0
    } else {
        count_matching(rs.drop_last(), pred) + if pred(rs.last()) {
            1int
        } else {
            0int
        }
    }
}

/// Counts are non-negative.
pub proof fn lemma_count_matching_nonneg(rs: Seq<RecordV>, pred: spec_fn(RecordV) -> bool)
    ensures
        0 <= count_matching(rs, pred),
    decreases rs.len(),
{
    if rs.len() > 0 {
        lemma_count_matching_nonneg(rs.drop_last(), pred);
    }
}

/// Appending one record raises the count by one exactly when it matches.
pub proof fn lemma_count_matching_push(rs: Seq<RecordV>, pred: spec_fn(RecordV) -> bool, r: RecordV)
    ensures
        count_matching(rs.push(r), pred) == count_matching(rs, pred) + if pred(r) {
            1int
        } else {
            0int
        },
{
    assert(rs.push(r).drop_last() =~= rs);
    assert(rs.push(r).last() == r);
}

/// Removing one record never raises a count.
pub proof fn lemma_count_matching_remove_le(rs: Seq<RecordV>, pred: spec_fn(RecordV) -> bool, i: int)
    requires
        0 <= i < rs.len(),
    ensures
        count_matching(rs.remove(i), pred) <= count_matching(rs, pred),
    decreases rs.len(),
{
    if i == rs.len() - 1 {
        assert(rs.remove(i) =~= rs.drop_last());
    } else {
        assert(rs.remove(i).drop_last() =~= rs.drop_last().remove(i));
        assert(rs.remove(i).last() == rs.last());
        lemma_count_matching_remove_le(rs.drop_last(), pred, i);
    }
}

/// A record-wise transform that never changes whether the predicate holds
/// keeps the count.
pub proof fn lemma_count_matching_map(
    rs: Seq<RecordV>,
    f: spec_fn(RecordV) -> RecordV,
    pred: spec_fn(RecordV) -> bool,
)
    requires
        forall|r: RecordV| pred(#[trigger] f(r)) == pred(r),
    ensures
        count_matching(rs.map_values(f), pred) == count_matching(rs, pred),
    decreases rs.len(),
{
    if rs.len() > 0 {
        assert(rs.map_values(f).drop_last() =~= rs.drop_last().map_values(f));
        lemma_count_matching_map(rs.drop_last(), f, pred);
    }
}

/// A zero count means no record matches, and conversely.
pub proof fn lemma_count_zero_iff_none(rs: Seq<RecordV>, pred: spec_fn(RecordV) -> bool)
    ensures
        count_matching(rs, pred) == 0 <==> !(exists|i: int|
            0 <= i < rs.len() && pred(#[trigger] rs[i])),
    decreases rs.len(),
{
    lemma_count_matching_nonneg(rs, pred);
    if rs.len() > 0 {
        lemma_count_zero_iff_none(rs.drop_last(), pred);
        lemma_count_matching_nonneg(rs.drop_last(), pred);
        if count_matching(rs, pred) == 0 {
            assert forall|i: int| 0 <= i < rs.len() implies !pred(#[trigger] rs[i]) by {
                if i < rs.len() - 1 {
                    assert(rs.drop_last()[i] == rs[i]);
                }
            }
        } else {
            if pred(rs.last()) {
            } else {
                let i = choose|i: int| 0 <= i < rs.drop_last().len() && pred(
                    #[trigger] rs.drop_last()[i],
                );
                assert(rs[i] == rs.drop_last()[i]);
            }
        }
    }
}

/// Whether a record is a pending coinbase at the given height.
pub open spec fn spec_coinbase_at_height_pred(height: u64) -> spec_fn(RecordV) -> bool {
    |r: RecordV| r.status == OutputStatus::PendingCoinbase(height)
}

/// After the clear, no pending coinbase at the height remains.
pub proof fn lemma_clear_coinbase_count_zero(rs: Seq<RecordV>, height: u64)
    ensures
        count_matching(spec_clear_coinbase_model(rs, height), spec_coinbase_at_height_pred(height))
            == 0,
    decreases rs.len(),
{
    if rs.len() > 0 {
        lemma_clear_coinbase_count_zero(rs.drop_last(), height);
        let rest = spec_clear_coinbase_model(rs.drop_last(), height);
        let r = rs.last();
        if r.status == OutputStatus::PendingCoinbase(height) {
        } else {
            lemma_count_matching_push(rest, spec_coinbase_at_height_pred(height), r);
        }
    }
}

/// The first stored output with the given on-chain hash, if any.
pub open spec fn spec_output_by_hash(rs: Seq<RecordV>, hash: Seq<u8>) -> Option<DbOutputV>
    decreases rs.len(),
{
    if rs.len() == 0 {
        None
    } else if rs.first().output.hash == hash {
        Some(rs.first().output)
    } else {
        spec_output_by_hash(rs.drop_first(), hash)
    }
}

/// The stored outputs among the queried on-chain hashes, in query order.
pub open spec fn spec_fetch_by_hash(rs: Seq<RecordV>, hashes: Seq<Seq<u8>>) -> Seq<DbOutputV>
    decreases hashes.len(),
{
    if hashes.len() == 0 {
        Seq::empty()
    } else {
        let rest = spec_fetch_by_hash(rs, hashes.drop_first());
        match spec_output_by_hash(rs, hashes.first()) {
            Some(o) => seq![o] + rest,
            None => rest,
        }
    }
}

/// A record moved to the given pool when it carries the commitment.
pub open spec fn spec_mark_record(r: RecordV, commitment: Seq<u8>, status: OutputStatus) -> RecordV {
    if r.output.commitment == commitment {
        RecordV { status, ..r }
    } else {
        r
    }
}

/// The stored records with every record carrying the commitment removed.
pub open spec fn spec_remove_by_commitment(rs: Seq<RecordV>, c: Seq<u8>) -> Seq<RecordV>
    decreases rs.len(),
{
    if rs.len() == 0 {
        Seq::empty()
    } else {
        let rest = spec_remove_by_commitment(rs.drop_last(), c);
        if rs.last().output.commitment == c {
            rest
        } else {
            rest.push(rs.last())
        }
    }
}

/// Removing an absent commitment changes nothing.
pub proof fn lemma_remove_by_commitment_noop(rs: Seq<RecordV>, c: Seq<u8>)
    requires
        !contains_commitment(rs, c),
    ensures
        spec_remove_by_commitment(rs, c) == rs,
    decreases rs.len(),
{
    if rs.len() > 0 {
        assert(!contains_commitment(rs.drop_last(), c)) by {
            if contains_commitment(rs.drop_last(), c) {
                let j = choose|j: int|
                    0 <= j < rs.drop_last().len() && rs.drop_last()[j].output.commitment == c;
                assert(rs[j].output.commitment == c);
            }
        }
        assert(rs[rs.len() - 1].output.commitment != c);
        lemma_remove_by_commitment_noop(rs.drop_last(), c);
        assert(spec_remove_by_commitment(rs, c) =~= rs);
    }
}

/// Under unique commitments, removing by commitment is removing the one
/// record that carries it.
pub proof fn lemma_remove_by_commitment_eq(rs: Seq<RecordV>, c: Seq<u8>, i: int)
    requires
        commitments_unique(rs),
        0 <= i < rs.len(),
        rs[i].output.commitment == c,
    ensures
        spec_remove_by_commitment(rs, c) == rs.remove(i),
    decreases rs.len(),
{
    if i == rs.len() - 1 {
        assert(!contains_commitment(rs.drop_last(), c)) by {
            if contains_commitment(rs.drop_last(), c) {
                let j = choose|j: int|
                    0 <= j < rs.drop_last().len() && rs.drop_last()[j].output.commitment == c;
                assert(rs[j].output.commitment == c);
            }
        }
        lemma_remove_by_commitment_noop(rs.drop_last(), c);
        assert(rs.remove(i) =~= rs.drop_last());
    } else {
        assert(commitments_unique(rs.drop_last()));
        assert(rs.drop_last()[i].output.commitment == c);
        lemma_remove_by_commitment_eq(rs.drop_last(), c, i);
        assert(rs[rs.len() - 1].output.commitment != c);
        assert(rs.remove(i) =~= rs.drop_last().remove(i).push(rs.last()));
    }
}

/// The clear leaves the records untouched when no pending coinbase sits at
/// the height.
pub proof fn lemma_clear_coinbase_noop(rs: Seq<RecordV>, height: u64)
    requires
        !spec_has_coinbase_at_height(rs, height),
    ensures
        spec_clear_coinbase_model(rs, height) == rs,
    decreases rs.len(),
{
    if rs.len() > 0 {
        assert(!spec_has_coinbase_at_height(rs.drop_last(), height)) by {
            if spec_has_coinbase_at_height(rs.drop_last(), height) {
                let j = choose|j: int|
                    0 <= j < rs.drop_last().len() && (#[trigger] rs.drop_last()[j]).status
                        == OutputStatus::PendingCoinbase(height);
                assert((#[trigger] rs[j]).status == OutputStatus::PendingCoinbase(height));
            }
        }
        assert((#[trigger] rs[rs.len() - 1]).status != OutputStatus::PendingCoinbase(height));
        lemma_clear_coinbase_noop(rs.drop_last(), height);
        assert(spec_clear_coinbase_model(rs, height) =~= rs);
    }
}

/// A record with its metadata signature replaced.
pub open spec fn spec_with_signature(r: RecordV, sig: Seq<u8>) -> RecordV {
    RecordV {
        output: DbOutputV {
            output: crate::output::UnblindedOutputV { metadata_signature: sig, ..r.output.output },
            ..r.output
        },
        ..r
    }
}

/// Removing one record takes exactly its value out of the sum.
pub proof fn lemma_sum_values_remove(rs: Seq<RecordV>, i: int)
    requires
        0 <= i < rs.len(),
    ensures
        sum_values(rs.remove(i)) == sum_values(rs) - rs[i].output.output.value,
    decreases rs.len(),
{
    if i == rs.len() - 1 {
        assert(rs.remove(i) =~= rs.drop_last());
    } else {
        assert(rs.remove(i).drop_last() =~= rs.drop_last().remove(i));
        assert(rs.remove(i).last() == rs.last());
        lemma_sum_values_remove(rs.drop_last(), i);
    }
}

/// The detailed balance of the store.
#[derive(Clone, Copy, Debug, PartialEq, Eq, Structural)]
pub struct Balance {
    /// Value currently available to spend.
    pub available_balance: u64,
    /// Value in spendable outputs still time-locked; absent without a tip.
    pub time_locked_balance: Option<u64>,
    /// Value due to be received but not yet confirmed.
    pub pending_incoming_balance: u64,
    /// Value encumbered in unconfirmed outbound transactions, net of the
    /// change scheduled to come back.
    pub pending_outgoing_balance: u64,
}

impl Balance {
    /// The all-zero balance.
    pub fn zero() -> (r: Self)
        ensures
            r == (Balance {
                available_balance: 0,
                time_locked_balance: None,
                pending_incoming_balance: 0,
                pending_outgoing_balance: 0,
            }),
    {
        Balance {
            available_balance: 0,
            time_locked_balance: None,
            pending_incoming_balance: 0,
            pending_outgoing_balance: 0,
        }
    }
}

/// Spendable now: unspent, and mature if the tip is known.
pub open spec fn spec_available_pred(tip: Option<u64>) -> spec_fn(RecordV) -> bool {
    |r: RecordV|
        r.status == OutputStatus::Unspent && match tip {
            Some(t) => r.output.output.features.maturity <= t,
            None => true,
        }
}

/// Unspent but still maturing at the known tip.
pub open spec fn spec_time_locked_pred(tip: u64) -> spec_fn(RecordV) -> bool {
    |r: RecordV| r.status == OutputStatus::Unspent && r.output.output.features.maturity > tip
}

/// Due to be received: scheduled inbound or a pending coinbase.
pub open spec fn spec_incoming_pred() -> spec_fn(RecordV) -> bool {
    |r: RecordV|
        r.status == OutputStatus::EncumberedToBeReceived || (r.status matches OutputStatus::PendingCoinbase(
            _,
        ))
}

/// Reserved as the input of an unconfirmed outbound transaction.
pub open spec fn spec_outgoing_pred() -> spec_fn(RecordV) -> bool {
    |r: RecordV| r.status == OutputStatus::EncumberedToBeSpent
}

/// Change still held short-term while negotiation completes.
pub open spec fn spec_short_term_pred() -> spec_fn(RecordV) -> bool {
    |r: RecordV| r.status == OutputStatus::ShortTermEncumbered
}

/// Value available to spend at the given tip.
pub open spec fn spec_available_balance(rs: Seq<RecordV>, tip: Option<u64>) -> int {
    sum_matching(rs, spec_available_pred(tip))
}

/// Value unspent but time-locked at the given tip.
pub open spec fn spec_time_locked_balance(rs: Seq<RecordV>, tip: u64) -> int {
    sum_matching(rs, spec_time_locked_pred(tip))
}

/// Value due to be received.
pub open spec fn spec_pending_incoming_balance(rs: Seq<RecordV>) -> int {
    sum_matching(rs, spec_incoming_pred())
}

/// Value leaving in unconfirmed outbound transactions, net of the expected
/// change.
pub open spec fn spec_pending_outgoing_balance(rs: Seq<RecordV>) -> int {
    let d = sum_matching(rs, spec_outgoing_pred()) - sum_matching(rs, spec_short_term_pred());
    if d < 0 {
        0
    } else {
        d
    }
}

/// Whether an output occurs in a sequence of outputs.
pub open spec fn output_in(os: Seq<DbOutputV>, o: DbOutputV) -> bool {
    exists|j: int| 0 <= j < os.len() && os[j] == o
}

/// The outputs of the records in a given pool, in store order.
pub open spec fn spec_outputs_with_status(rs: Seq<RecordV>, status: OutputStatus) -> Seq<DbOutputV>
    decreases rs.len(),
{
    if rs.len() == 0 {
        Seq::empty()
    } else {
        let rest = spec_outputs_with_status(rs.drop_last(), status);
        if rs.last().status == status {
            rest.push(rs.last().output)
        } else {
            rest
        }
    }
}

/// Ascending order by value.
pub open spec fn sorted_by_value(os: Seq<DbOutputV>) -> bool {
    forall|i: int, j: int| 0 <= i < j < os.len() ==> os[i].output.value <= os[j].output.value
}

/// Lexicographic order on byte strings; a proper prefix comes first.
pub open spec fn lex_le(a: Seq<u8>, b: Seq<u8>) -> bool
    decreases a.len(),
{
    if a.len() == 0 {
        true
    } else if b.len() == 0 {
        false
    } else if a.first() < b.first() {
        true
    } else if a.first() > b.first() {
        false
    } else {
        lex_le(a.drop_first(), b.drop_first())
    }
}

/// Any two byte strings compare, one way or the other.
pub proof fn lemma_lex_le_total(a: Seq<u8>, b: Seq<u8>)
    ensures
        lex_le(a, b) || lex_le(b, a),
    decreases a.len(),
{
    if a.len() > 0 && b.len() > 0 && a.first() == b.first() {
        lemma_lex_le_total(a.drop_first(), b.drop_first());
    }
}

/// Lexicographic order chains.
pub proof fn lemma_lex_le_trans(a: Seq<u8>, b: Seq<u8>, c: Seq<u8>)
    requires
        lex_le(a, b),
        lex_le(b, c),
    ensures
        lex_le(a, c),
    decreases a.len(),
{
    if a.len() > 0 && b.len() > 0 && c.len() > 0 && a.first() == b.first() && b.first()
        == c.first() {
        lemma_lex_le_trans(a.drop_first(), b.drop_first(), c.drop_first());
    }
}

/// Compares two byte strings lexicographically.
pub fn bytes_lex_le(a: &[u8], b: &[u8]) -> (r: bool)
    ensures
        r == lex_le(a@, b@),
{
    let ghost av = a@;
    let ghost bv = b@;
    proof {
        assert(av.skip(0) =~= av);
        assert(bv.skip(0) =~= bv);
    }
    let n = if a.len() <= b.len() {
        a.len()
    } else {
        b.len()
    };
    let mut i: usize = 0;
    while i < n
        invariant
            0 <= i <= n,
            av == a@,
            bv == b@,
            n == if av.len() <= bv.len() {
                av.len()
            } else {
                bv.len()
            },
            lex_le(av, bv) == lex_le(av.skip(i as int), bv.skip(i as int)),
        decreases n - i,
    {
        proof {
            assert(av.skip(i as int).first() == av[i as int]);
            assert(bv.skip(i as int).first() == bv[i as int]);
            assert(av.skip(i as int).drop_first() =~= av.skip(i as int + 1));
            assert(bv.skip(i as int).drop_first() =~= bv.skip(i as int + 1));
        }
        if a[i] < b[i] {
            return true;
        }
        if a[i] > b[i] {
            return false;
        }
        i += 1;
    }
    proof {
        if av.len() <= bv.len() {
            assert(av.skip(n as int) =~= Seq::<u8>::empty());
        } else {
            assert(bv.skip(n as int) =~= Seq::<u8>::empty());
            assert(av.skip(n as int).len() > 0);
        }
    }
    a.len() <= b.len()
}

/// The order the spendable-output fetch sorts by: ascending value, ties
/// broken by the commitment bytes.
pub open spec fn le_output(a: DbOutputV, b: DbOutputV) -> bool {
    a.output.value < b.output.value || (a.output.value == b.output.value && lex_le(
        a.commitment,
        b.commitment,
    ))
}

/// Any two outputs compare under the fetch order.
pub proof fn lemma_le_output_total(a: DbOutputV, b: DbOutputV)
    ensures
        le_output(a, b) || le_output(b, a),
{
    lemma_lex_le_total(a.commitment, b.commitment);
}

/// The fetch order chains.
pub proof fn lemma_le_output_trans(a: DbOutputV, b: DbOutputV, c: DbOutputV)
    requires
        le_output(a, b),
        le_output(b, c),
    ensures
        le_output(a, c),
{
    if a.output.value == b.output.value && b.output.value == c.output.value {
        lemma_lex_le_trans(a.commitment, b.commitment, c.commitment);
    }
}

/// Ascending value, ties broken by commitment bytes.
pub open spec fn sorted_by_value_and_commitment(os: Seq<DbOutputV>) -> bool {
    forall|i: int, j: int| 0 <= i < j < os.len() ==> le_output(#[trigger] os[i], #[trigger] os[j])
}

/// Insertion into a fetch-ordered sequence: the new output lands after every
/// output that the order puts at or before it.
pub open spec fn spec_sorted_insert(os: Seq<DbOutputV>, x: DbOutputV) -> Seq<DbOutputV>
    decreases os.len(),
{
    if os.len() == 0 {
        seq![x]
    } else if le_output(os.last(), x) {
        os.push(x)
    } else {
        spec_sorted_insert(os.drop_last(), x).push(os.last())
    }
}

/// The stable value-ascending sort of a sequence of outputs.
pub open spec fn spec_value_sorted(os: Seq<DbOutputV>) -> Seq<DbOutputV>
    decreases os.len(),
{
    if os.len() == 0 {
        Seq::empty()
    } else {
        spec_sorted_insert(spec_value_sorted(os.drop_last()), os.last())
    }
}

/// Insertion introduces no output but the inserted one.
pub proof fn lemma_sorted_insert_membership(os: Seq<DbOutputV>, x: DbOutputV, o: DbOutputV)
    requires
        output_in(spec_sorted_insert(os, x), o),
    ensures
        output_in(os, o) || o == x,
    decreases os.len(),
{
    if os.len() == 0 {
        assert(spec_sorted_insert(os, x) =~= seq![x]);
    } else if le_output(os.last(), x) {
        let j = choose|j: int|
            0 <= j < os.push(x).len() && os.push(x)[j] == o;
        if j < os.len() {
            assert(os[j] == o);
        }
    } else {
        let rest = spec_sorted_insert(os.drop_last(), x);
        let j = choose|j: int|
            0 <= j < rest.push(os.last()).len() && rest.push(os.last())[j] == o;
        if j < rest.len() {
            assert(output_in(rest, o));
            lemma_sorted_insert_membership(os.drop_last(), x, o);
            if output_in(os.drop_last(), o) {
                let j2 = choose|j2: int|
                    0 <= j2 < os.drop_last().len() && os.drop_last()[j2] == o;
                assert(os[j2] == o);
            }
        } else {
            assert(os[os.len() - 1] == o);
        }
    }
}

/// The sort introduces no output.
pub proof fn lemma_value_sorted_membership(os: Seq<DbOutputV>, o: DbOutputV)
    requires
        output_in(spec_value_sorted(os), o),
    ensures
        output_in(os, o),
    decreases os.len(),
{
    if os.len() > 0 {
        lemma_sorted_insert_membership(spec_value_sorted(os.drop_last()), os.last(), o);
        if output_in(spec_value_sorted(os.drop_last()), o) {
            lemma_value_sorted_membership(os.drop_last(), o);
            let j = choose|j: int| 0 <= j < os.drop_last().len() && os.drop_last()[j] == o;
            assert(os[j] == o);
        } else {
            assert(os[os.len() - 1] == o);
        }
    }
}

/// Every output of a pool belongs to a record of the store in that pool.
pub proof fn lemma_outputs_with_status_member(
    rs: Seq<RecordV>,
    status: OutputStatus,
    o: DbOutputV,
)
    requires
        output_in(spec_outputs_with_status(rs, status), o),
    ensures
        exists|i: int| 0 <= i < rs.len() && (#[trigger] rs[i]).output == o && rs[i].status == status,
    decreases rs.len(),
{
    if rs.len() > 0 {
        let rest = spec_outputs_with_status(rs.drop_last(), status);
        let pool = spec_outputs_with_status(rs, status);
        let j = choose|j: int| 0 <= j < pool.len() && pool[j] == o;
        if rs.last().status == status && j == rest.len() {
            assert((#[trigger] rs[rs.len() - 1]).output == o);
        } else {
            assert(output_in(rest, o));
            lemma_outputs_with_status_member(rs.drop_last(), status, o);
            let i = choose|i: int|
                0 <= i < rs.drop_last().len() && (#[trigger] rs.drop_last()[i]).output == o
                    && rs.drop_last()[i].status == status;
            assert((#[trigger] rs[i]).output == o);
        }
    }
}

/// Stable value insertion adds exactly the new output's value to the sum.
pub proof fn lemma_sorted_insert_sum(os: Seq<DbOutputV>, x: DbOutputV)
    ensures
        sum_outputs(spec_sorted_insert(os, x)) == sum_outputs(os) + x.output.value,
    decreases os.len(),
{
    if os.len() == 0 {
        assert(seq![x].drop_last() =~= Seq::<DbOutputV>::empty());
        assert(sum_outputs(Seq::<DbOutputV>::empty()) == 0);
    } else if le_output(os.last(), x) {
        assert(os.push(x).drop_last() =~= os);
    } else {
        lemma_sorted_insert_sum(os.drop_last(), x);
        let rest = spec_sorted_insert(os.drop_last(), x);
        assert(rest.push(os.last()).drop_last() =~= rest);
    }
}

/// The stable value sort keeps the sum.
pub proof fn lemma_value_sorted_sum(os: Seq<DbOutputV>)
    ensures
        sum_outputs(spec_value_sorted(os)) == sum_outputs(os),
    decreases os.len(),
{
    if os.len() > 0 {
        lemma_value_sorted_sum(os.drop_last());
        lemma_sorted_insert_sum(spec_value_sorted(os.drop_last()), os.last());
    }
}

/// Stable value insertion grows the length by one.
pub proof fn lemma_sorted_insert_len(os: Seq<DbOutputV>, x: DbOutputV)
    ensures
        spec_sorted_insert(os, x).len() == os.len() + 1,
    decreases os.len(),
{
    if os.len() > 0 && !le_output(os.last(), x) {
        lemma_sorted_insert_len(os.drop_last(), x);
    }
}

/// The stable value sort keeps the length.
pub proof fn lemma_value_sorted_len(os: Seq<DbOutputV>)
    ensures
        spec_value_sorted(os).len() == os.len(),
    decreases os.len(),
{
    if os.len() > 0 {
        lemma_value_sorted_len(os.drop_last());
        lemma_sorted_insert_len(spec_value_sorted(os.drop_last()), os.last());
    }
}

/// Inserting at the first position the order puts after the new output is
/// exactly the stable insertion.
pub proof fn lemma_sorted_insert_at(os: Seq<DbOutputV>, x: DbOutputV, p: int)
    requires
        sorted_by_value_and_commitment(os),
        0 <= p <= os.len(),
        forall|j: int| 0 <= j < p ==> le_output(#[trigger] os[j], x),
        p < os.len() ==> !le_output(os[p], x),
    ensures
        os.insert(p, x) == spec_sorted_insert(os, x),
    decreases os.len(),
{
    if os.len() == 0 {
        assert(os.insert(0, x) =~= seq![x]);
    } else if le_output(os.last(), x) {
        assert(p == os.len()) by {
            if p < os.len() {
                if p < os.len() - 1 {
                    lemma_le_output_trans(os[p], os[os.len() - 1], x);
                }
            }
        }
        assert(os.insert(p, x) =~= os.push(x));
    } else {
        assert(p < os.len());
        let prefix = os.drop_last();
        assert(sorted_by_value_and_commitment(prefix));
        assert(p <= prefix.len()) by {
            if p == os.len() {
                assert(le_output(os[os.len() - 1], x));
            }
        }
        lemma_sorted_insert_at(prefix, x, p);
        assert(os.insert(p, x) =~= prefix.insert(p, x).push(os.last()));
    }
}

/// Descending order by value.
pub open spec fn sorted_by_value_desc(os: Seq<DbOutputV>) -> bool {
    forall|i: int, j: int| 0 <= i < j < os.len() ==> os[i].output.value >= os[j].output.value
}

/// Inserting one output adds exactly its value to the sum.
pub proof fn lemma_sum_outputs_insert(os: Seq<DbOutputV>, i: int, o: DbOutputV)
    requires
        0 <= i <= os.len(),
    ensures
        sum_outputs(os.insert(i, o)) == sum_outputs(os) + o.output.value,
    decreases os.len(),
{
    if i == os.len() {
        assert(os.insert(i, o).drop_last() =~= os);
        assert(os.insert(i, o).last() == o);
    } else {
        assert(os.insert(i, o).drop_last() =~= os.drop_last().insert(i, o));
        assert(os.insert(i, o).last() == os.last());
        lemma_sum_outputs_insert(os.drop_last(), i, o);
    }
}

/// Inserting one output inserts exactly it into the multiset.
pub proof fn lemma_to_multiset_insert(os: Seq<DbOutputV>, i: int, o: DbOutputV)
    requires
        0 <= i <= os.len(),
    ensures
        os.insert(i, o).to_multiset() =~= os.to_multiset().insert(o),
    decreases os.len(),
{
    broadcast use vstd::seq_lib::group_to_multiset_ensures;

    if i == os.len() {
        assert(os.insert(i, o) =~= os.push(o));
    } else {
        assert(os.insert(i, o).drop_last() =~= os.drop_last().insert(i, o));
        assert(os.insert(i, o).last() == os.last());
        lemma_to_multiset_insert(os.drop_last(), i, o);
        assert(os.insert(i, o) =~= os.drop_last().insert(i, o).push(os.last()));
        assert(os =~= os.drop_last().push(os.last()));
        assert(os.insert(i, o).to_multiset() =~= os.drop_last().insert(i, o).to_multiset().insert(
            os.last(),
        ));
        assert(os.to_multiset() =~= os.drop_last().to_multiset().insert(os.last()));
        assert(os.drop_last().insert(i, o).to_multiset() =~= os.drop_last().to_multiset().insert(o));
    }
}

/// Disjoint pools: under the store invariant a commitment names at most one
/// record, and every record is in exactly one pool, so no commitment appears
/// in two pools.
pub proof fn lemma_disjoint_pools(v: DbV, c: Seq<u8>)
    requires
        db_wf(v),
    ensures
        forall|i: int, j: int|
            0 <= i < v.records.len() && 0 <= j < v.records.len()
                && (#[trigger] v.records[i]).output.commitment == c
                && (#[trigger] v.records[j]).output.commitment == c ==> i == j,
{
    assert forall|i: int, j: int|
        0 <= i < v.records.len() && 0 <= j < v.records.len()
            && (#[trigger] v.records[i]).output.commitment == c
            && (#[trigger] v.records[j]).output.commitment == c implies i == j by {
        if i < j {
            assert(v.records[i].output.commitment != v.records[j].output.commitment);
        }
        if j < i {
            assert(v.records[j].output.commitment != v.records[i].output.commitment);
        }
    }
}

/// Conservation under encumbrance: the total stored value grows by exactly
/// the change outputs inserted; moving the inputs between pools adds nothing.
pub proof fn lemma_conservation_encumber(
    rs: Seq<RecordV>,
    tx_id: u64,
    send: Seq<DbOutputV>,
    recv: Seq<DbOutputV>,
)
    ensures
        sum_values(spec_encumber_model(rs, tx_id, send, recv)) == sum_values(rs) + sum_outputs(recv),
{
    let f = |r: RecordV| spec_encumber_record(r, tx_id, send);
    let g = |o: DbOutputV| spec_short_term_record(o, tx_id);
    assert(forall|r: RecordV| (#[trigger] f(r)).output == r.output);
    lemma_sum_values_map(rs, f);
    lemma_sum_values_append(rs.map_values(f), recv.map_values(g));
    lemma_sum_short_term_records(recv, tx_id);
}

/// Conservation under confirmation: promoting short-term encumbrances moves
/// records between pools and changes no value.
pub proof fn lemma_conservation_confirm(rs: Seq<RecordV>, tx_id: u64)
    ensures
        sum_values(rs.map_values(|r: RecordV| spec_confirm_record(r, tx_id))) == sum_values(rs),
{
    let f = |r: RecordV| spec_confirm_record(r, tx_id);
    assert(forall|r: RecordV| (#[trigger] f(r)).output == r.output);
    lemma_sum_values_map(rs, f);
}

/// Conservation under the startup sweep: the total stored value shrinks by
/// exactly the short-term encumbrances that are dropped; returning their
/// inputs to the spendable pool adds nothing.
pub proof fn lemma_conservation_clear_short_term(rs: Seq<RecordV>, full: Seq<RecordV>)
    ensures
        sum_values(spec_clear_short_term_model(rs, full)) == sum_values(rs) - sum_matching(
            rs,
            |r: RecordV| r.status == OutputStatus::ShortTermEncumbered,
        ),
    decreases rs.len(),
{
    if rs.len() > 0 {
        lemma_conservation_clear_short_term(rs.drop_last(), full);
        let rest = spec_clear_short_term_model(rs.drop_last(), full);
        let r = rs.last();
        lemma_sum_values_push(rest, RecordV { status: OutputStatus::Unspent, tx_id: None, ..r });
        lemma_sum_values_push(rest, r);
    }
}

/// Conservation under cancellation: the total stored value shrinks by exactly
/// the short-term change outputs that are deleted; returning the inputs to
/// the spendable pool adds nothing.
pub proof fn lemma_conservation_cancel(rs: Seq<RecordV>, tx_id: u64)
    ensures
        sum_values(spec_cancel_model(rs, tx_id)) == sum_values(rs) - sum_matching(
            rs,
            |r: RecordV| r.status == OutputStatus::ShortTermEncumbered && r.tx_id == Some(tx_id),
        ),
    decreases rs.len(),
{
    let pred = |r: RecordV| r.status == OutputStatus::ShortTermEncumbered && r.tx_id == Some(tx_id);
    if rs.len() > 0 {
        lemma_conservation_cancel(rs.drop_last(), tx_id);
        let rest = spec_cancel_model(rs.drop_last(), tx_id);
        let r = rs.last();
        lemma_sum_values_push(rest, RecordV { status: OutputStatus::Unspent, tx_id: None, ..r });
        lemma_sum_values_push(rest, RecordV { status: OutputStatus::CancelledInbound, ..r });
        lemma_sum_values_push(rest, r);
    }
}

/// Replacing a record with one of equal value keeps the sum.
pub proof fn lemma_sum_values_update(rs: Seq<RecordV>, i: int, r2: RecordV)
    requires
        0 <= i < rs.len(),
        r2.output.output.value == rs[i].output.output.value,
    ensures
        sum_values(rs.update(i, r2)) == sum_values(rs),
    decreases rs.len(),
{
    if i == rs.len() - 1 {
        assert(rs.update(i, r2).drop_last() =~= rs.drop_last());
        assert(rs.update(i, r2).last() == r2);
    } else {
        assert(rs.update(i, r2).drop_last() =~= rs.drop_last().update(i, r2));
        assert(rs.update(i, r2).last() == rs.last());
        lemma_sum_values_update(rs.drop_last(), i, r2);
    }
}

} // verus!
