//! The wallet-facing RPC service of a base node, over a modeled chain
//! state: kernel and header lookups, transaction submission and queries,
//! output queries, and the deleted-position partition.

use vstd::prelude::*;
use crate::crypto::bytes_eq;
use crate::crypto::clone_bytes;
use crate::errors::RpcStatus;
use crate::output::TransactionOutput;
use crate::output::TransactionOutputV;

verus! {

/// Where a queried transaction was found.
#[derive(Clone, Copy, Debug, PartialEq, Eq, Structural)]
pub enum TxLocation {
    /// Not stored by this node at all.
    NotStored,
    /// Waiting in the mempool.
    InMempool,
    /// Mined into a block.
    Mined,
}

/// Why a submitted transaction was rejected.
#[derive(Clone, Copy, Debug, PartialEq, Eq, Structural)]
pub enum TxSubmissionRejectionReason {
    /// Accepted; no rejection.
    NotRejected,
    /// The transaction spends outputs this node does not know.
    Orphan,
    /// The transaction is time-locked.
    TimeLocked,
    /// The transaction double-spends an output.
    DoubleSpend,
    /// The exact transaction is already mined.
    AlreadyMined,
    /// The transaction failed validation.
    ValidationFailed,
}

/// Where the mempool keeps, or refuses, a transaction.
#[derive(Clone, Copy, Debug, PartialEq, Eq, Structural)]
pub enum TxStorageResponse {
    /// Held in the unconfirmed pool.
    UnconfirmedPool,
    /// Held in the reorg pool.
    ReorgPool,
    /// Refused as an orphan.
    NotStoredOrphan,
    /// Refused as time-locked.
    NotStoredTimeLocked,
    /// Refused because an input is already spent.
    NotStoredAlreadySpent,
    /// Refused outright.
    NotStored,
}

/// The reply to a transaction submission.
pub struct TxSubmissionResponse {
    /// Whether the mempool accepted it.
    pub accepted: bool,
    /// Why it was rejected, when it was.
    pub rejection_reason: TxSubmissionRejectionReason,
    /// Whether this node believes it is in sync.
    pub is_synced: bool,
}

/// The reply to a transaction query.
pub struct TxQueryResponse {
    /// Where the transaction was found.
    pub location: TxLocation,
    /// The block it was mined in, when mined.
    pub block_hash: Option<Vec<u8>>,
    /// Confirmations gathered since it was mined.
    pub confirmations: u64,
    /// Whether this node believes it is in sync.
    pub is_synced: bool,
    /// The tip height of this node's chain.
    pub height_of_longest_chain: u64,
}

/// One entry of a batched transaction query reply.
pub struct TxQueryBatchResponse {
    /// The queried excess signature.
    pub signature: Vec<u8>,
    /// Where the transaction was found.
    pub location: TxLocation,
    /// The block it was mined in, when mined.
    pub block_hash: Option<Vec<u8>>,
    /// Confirmations gathered since it was mined.
    pub confirmations: u64,
    /// The height it was mined at: the tip minus the confirmations.
    pub block_height: u64,
}

/// A kernel mined into a block, indexed by its excess signature.
pub struct KernelInfo {
    /// The kernel's excess signature.
    pub excess_sig: Vec<u8>,
    /// The hash of the block holding it.
    pub block_hash: Vec<u8>,
}

/// A block header, indexed by height and hash.
pub struct HeaderInfo {
    /// The header's height.
    pub height: u64,
    /// The header's hash.
    pub hash: Vec<u8>,
}

/// An output mined into the chain, with its membership data.
pub struct UtxoMinedInfo {
    /// The output itself.
    pub output: TransactionOutput,
    /// The output's hash.
    pub hash: Vec<u8>,
    /// Its position in the output accumulator.
    pub mmr_position: u64,
    /// The height it was mined at.
    pub mined_height: u64,
    /// The block it was mined in.
    pub header_hash: Vec<u8>,
    /// Whether it has been spent.
    pub spent: bool,
    /// Whether its body has been pruned away.
    pub pruned: bool,
}

/// A deleted accumulator position, with where the deletion happened.
pub struct DeletedPositionInfo {
    /// The deleted position.
    pub position: u32,
    /// The height the deletion happened at.
    pub height: u64,
    /// The block the deletion happened in.
    pub block_hash: Vec<u8>,
}

/// The chain state the RPC service reads: tip metadata, mined kernels,
/// headers, outputs and deleted positions.
pub struct BlockchainStateModel {
    /// The tip height.
    pub height_of_longest_chain: u64,
    /// The tip block's hash.
    pub best_block: Vec<u8>,
    /// Every mined kernel.
    pub kernels: Vec<KernelInfo>,
    /// Every header.
    pub headers: Vec<HeaderInfo>,
    /// Every mined output.
    pub utxos: Vec<UtxoMinedInfo>,
    /// Every deleted accumulator position.
    pub deleted: Vec<DeletedPositionInfo>,
}

/// The mempool the RPC service consults: a stored verdict per excess
/// signature.
pub struct MempoolModel {
    /// The verdict the mempool holds for each known signature.
    pub entries: Vec<(Vec<u8>, TxStorageResponse)>,
}

/// The node state machine: whether the node is listening and in sync.
#[derive(Clone, Copy, Debug, PartialEq, Eq, Structural)]
pub struct StateMachineModel {
    /// Whether the node is in its listening state and synced.
    pub synced_listening: bool,
}

/// The block hash of the first mined kernel carrying the signature, if any.
pub open spec fn spec_kernel_block_hash(kernels: Seq<KernelInfo>, sig: Seq<u8>) -> Option<Seq<u8>>
    decreases kernels.len(),
{
    if kernels.len() == 0 {
        None
    } else if kernels.first().excess_sig@ == sig {
        Some(kernels.first().block_hash@)
    } else {
        spec_kernel_block_hash(kernels.drop_first(), sig)
    }
}

/// The height of the first header with the given hash, if any.
pub open spec fn spec_header_height_by_hash(headers: Seq<HeaderInfo>, hash: Seq<u8>) -> Option<u64>
    decreases headers.len(),
{
    if headers.len() == 0 {
        None
    } else if headers.first().hash@ == hash {
        Some(headers.first().height)
    } else {
        spec_header_height_by_hash(headers.drop_first(), hash)
    }
}

/// The hash of the first header at the given height, if any.
pub open spec fn spec_header_hash_by_height(headers: Seq<HeaderInfo>, height: u64) -> Option<
    Seq<u8>,
>
    decreases headers.len(),
{
    if headers.len() == 0 {
        None
    } else if headers.first().height == height {
        Some(headers.first().hash@)
    } else {
        spec_header_hash_by_height(headers.drop_first(), height)
    }
}

/// The verdict the mempool holds for a signature: that of the first entry
/// carrying it, if any.
pub open spec fn spec_mempool_verdict(entries: Seq<(Vec<u8>, TxStorageResponse)>, sig: Seq<u8>)
    -> Option<TxStorageResponse>
    decreases entries.len(),
{
    if entries.len() == 0 {
        None
    } else if entries.first().0@ == sig {
        Some(entries.first().1)
    } else {
        spec_mempool_verdict(entries.drop_first(), sig)
    }
}

/// A missing verdict means no entry matches; a present one belongs to the
/// first matching entry.
pub proof fn lemma_mempool_verdict_characterization(
    entries: Seq<(Vec<u8>, TxStorageResponse)>,
    sig: Seq<u8>,
)
    ensures
        ({
            let v = spec_mempool_verdict(entries, sig);
            &&& (v is None ==> forall|j: int|
                0 <= j < entries.len() ==> (#[trigger] entries[j]).0@ != sig)
            &&& (v matches Some(verdict) ==> exists|j: int|
                0 <= j < entries.len() && (#[trigger] entries[j]).0@ == sig && entries[j].1
                    == verdict && forall|j2: int| 0 <= j2 < j ==> (#[trigger] entries[j2]).0@
                    != sig)
        }),
    decreases entries.len(),
{
    if entries.len() > 0 && entries.first().0@ != sig {
        lemma_mempool_verdict_characterization(entries.drop_first(), sig);
        let v = spec_mempool_verdict(entries, sig);
        if v is None {
            assert forall|j: int| 0 <= j < entries.len() implies (#[trigger] entries[j]).0@
                != sig by {
                if j > 0 {
                    assert(entries.drop_first()[j - 1] == entries[j]);
                }
            }
        } else {
            let verdict = v->Some_0;
            let j = choose|j: int|
                0 <= j < entries.drop_first().len() && (#[trigger] entries.drop_first()[j]).0@
                    == sig && entries.drop_first()[j].1 == verdict && forall|j2: int|
                    0 <= j2 < j ==> (#[trigger] entries.drop_first()[j2]).0@ != sig;
            assert(entries[j + 1] == entries.drop_first()[j]);
            assert forall|j2: int| 0 <= j2 < j + 1 implies (#[trigger] entries[j2]).0@ != sig by {
                if j2 > 0 {
                    assert(entries.drop_first()[j2 - 1] == entries[j2]);
                }
            }
        }
    }
}

/// Whether an accumulator position is recorded as deleted.
pub open spec fn spec_position_deleted(deleted: Seq<DeletedPositionInfo>, position: u32) -> bool {
    exists|i: int| 0 <= i < deleted.len() && (#[trigger] deleted[i]).position == position
}

/// The first mined-output record with the given hash, if any.
pub open spec fn spec_find_utxo(utxos: Seq<UtxoMinedInfo>, hash: Seq<u8>) -> Option<UtxoMinedInfo>
    decreases utxos.len(),
{
    if utxos.len() == 0 {
        None
    } else if utxos.first().hash@ == hash {
        Some(utxos.first())
    } else {
        spec_find_utxo(utxos.drop_first(), hash)
    }
}

/// The unspent, unpruned outputs among the queried hashes, in query order.
pub open spec fn spec_matching_utxos(utxos: Seq<UtxoMinedInfo>, hashes: Seq<Seq<u8>>) -> Seq<
    TransactionOutputV,
>
    decreases hashes.len(),
{
    if hashes.len() == 0 {
        Seq::empty()
    } else {
        let rest = spec_matching_utxos(utxos, hashes.drop_first());
        match spec_find_utxo(utxos, hashes.first()) {
            Some(u) => if !u.pruned && !u.spent {
                seq![u.output@] + rest
            } else {
                rest
            },
            None => rest,
        }
    }
}

/// One entry of a mined-output query reply.
pub struct UtxoQueryResponseEntry {
    /// Its position in the output accumulator.
    pub mmr_position: u64,
    /// The height it was mined at.
    pub mined_height: u64,
    /// The block it was mined in.
    pub mined_in_block: Vec<u8>,
    /// The output's hash.
    pub output_hash: Vec<u8>,
    /// The output itself, absent when pruned.
    pub output: Option<TransactionOutput>,
}

/// Mathematical model of a mined-output query entry: position, height,
/// block, hash and the optional output.
pub open spec fn spec_utxo_entry_view(e: UtxoQueryResponseEntry) -> (
    u64,
    u64,
    Seq<u8>,
    Seq<u8>,
    Option<TransactionOutputV>,
) {
    (
        e.mmr_position,
        e.mined_height,
        e.mined_in_block@,
        e.output_hash@,
        match e.output {
            Some(o) => Some(o@),
            None => None,
        },
    )
}

/// The reply to a mined-output query.
pub struct UtxoQueryResponses {
    /// One entry per queried hash found on chain.
    pub responses: Vec<UtxoQueryResponseEntry>,
    /// The tip height.
    pub height_of_longest_chain: u64,
    /// The tip block's hash.
    pub best_block: Vec<u8>,
}

/// The entries a mined-output query returns, in query order: found hashes
/// only, with the output body withheld when pruned.
pub open spec fn spec_utxo_query_entries(utxos: Seq<UtxoMinedInfo>, hashes: Seq<Seq<u8>>) -> Seq<
    (u64, u64, Seq<u8>, Seq<u8>, Option<TransactionOutputV>),
>
    decreases hashes.len(),
{
    if hashes.len() == 0 {
        Seq::empty()
    } else {
        let rest = spec_utxo_query_entries(utxos, hashes.drop_first());
        match spec_find_utxo(utxos, hashes.first()) {
            Some(u) => seq![
                (
                    u.mmr_position,
                    u.mined_height,
                    u.header_hash@,
                    u.hash@,
                    if u.pruned {
                        None
                    } else {
                        Some(u.output@)
                    },
                ),
            ] + rest,
            None => rest,
        }
    }
}

/// The height and block of the first recorded deletion of a position, if
/// any.
pub open spec fn spec_deleted_info(deleted: Seq<DeletedPositionInfo>, position: u32) -> Option<
    (u64, Seq<u8>),
>
    decreases deleted.len(),
{
    if deleted.len() == 0 {
        None
    } else if deleted.first().position == position {
        Some((deleted.first().height, deleted.first().block_hash@))
    } else {
        spec_deleted_info(deleted.drop_first(), position)
    }
}

/// The deletion heights and blocks reported for a list of deleted
/// positions, in order, skipping positions with no recorded deletion data.
pub open spec fn spec_deleted_block_data(
    deleted: Seq<DeletedPositionInfo>,
    positions: Seq<u64>,
) -> (Seq<u64>, Seq<Seq<u8>>)
    decreases positions.len(),
{
    if positions.len() == 0 {
        (Seq::empty(), Seq::empty())
    } else {
        let (rh, rb) = spec_deleted_block_data(deleted, positions.drop_first());
        let p = positions.first();
        if p <= u32::MAX {
            match spec_deleted_info(deleted, p as u32) {
                Some((height, block)) => (seq![height] + rh, seq![block] + rb),
                None => (rh, rb),
            }
        } else {
            (rh, rb)
        }
    }
}

/// Splits queried positions into deleted and not deleted, keeping query
/// order.
pub open spec fn spec_partition_deleted(
    deleted: Seq<DeletedPositionInfo>,
    positions: Seq<u64>,
) -> (Seq<u64>, Seq<u64>)
    decreases positions.len(),
{
    if positions.len() == 0 {
        (Seq::empty(), Seq::empty())
    } else {
        let (rdel, rnot) = spec_partition_deleted(deleted, positions.drop_first());
        let p = positions.first();
        if p <= u32::MAX && spec_position_deleted(deleted, p as u32) {
            (seq![p] + rdel, rnot)
        } else {
            (rdel, seq![p] + rnot)
        }
    }
}

impl MempoolModel {
    /// The verdict for a signature; signatures never seen get the
    /// unconfirmed-pool verdict and are recorded with it.
    pub fn submit(&mut self, sig: &Vec<u8>) -> (r: TxStorageResponse)
        ensures
            match spec_mempool_verdict(old(self).entries@, sig@) {
                Some(v) => r == v && final(self).entries@ == old(self).entries@,
                None => r == TxStorageResponse::UnconfirmedPool && final(self).entries@.len()
                    == old(self).entries@.len() + 1,
            },
    {
        proof {
            lemma_mempool_verdict_characterization(self.entries@, sig@);
        }
        let n = self.entries.len();
        let mut i: usize = 0;
        while i < n
            invariant
                0 <= i <= n,
                n == self.entries@.len(),
                self.entries@ == old(self).entries@,
                forall|j: int| 0 <= j < i ==> (#[trigger] self.entries@[j]).0@ != sig@,
            decreases n - i,
        {
            if bytes_eq(self.entries[i].0.as_slice(), sig.as_slice()) {
                proof {
                    lemma_mempool_verdict_characterization(self.entries@, sig@);
                    assert((#[trigger] self.entries@[i as int]).0@ == sig@);
                }
                return self.entries[i].1;
            }
            i += 1;
        }
        proof {
            lemma_mempool_verdict_characterization(self.entries@, sig@);
        }
        self.entries.push((clone_bytes(sig), TxStorageResponse::UnconfirmedPool));
        TxStorageResponse::UnconfirmedPool
    }

    /// The verdict for a signature, without recording anything.
    pub fn get_tx_state_by_excess_sig(&self, sig: &Vec<u8>) -> (r: TxStorageResponse)
        ensures
            r == match spec_mempool_verdict(self.entries@, sig@) {
                Some(v) => v,
                None => TxStorageResponse::NotStored,
            },
    {
        let n = self.entries.len();
        let mut i: usize = 0;
        while i < n
            invariant
                0 <= i <= n,
                n == self.entries@.len(),
                forall|j: int| 0 <= j < i ==> (#[trigger] self.entries@[j]).0@ != sig@,
            decreases n - i,
        {
            if bytes_eq(self.entries[i].0.as_slice(), sig.as_slice()) {
                proof {
                    lemma_mempool_verdict_characterization(self.entries@, sig@);
                    assert((#[trigger] self.entries@[i as int]).0@ == sig@);
                }
                return self.entries[i].1;
            }
            i += 1;
        }
        proof {
            lemma_mempool_verdict_characterization(self.entries@, sig@);
        }
        TxStorageResponse::NotStored
    }
}

/// The reply to a tip-information query.
pub struct TipInfoResponse {
    /// The tip height.
    pub height_of_longest_chain: u64,
    /// The tip block's hash.
    pub best_block: Vec<u8>,
    /// Whether this node believes it is in sync.
    pub is_synced: bool,
}

/// The reply to a batched transaction query.
pub struct TxQueryBatchResponses {
    /// One entry per queried signature.
    pub responses: Vec<TxQueryBatchResponse>,
    /// Whether this node believes it is in sync.
    pub is_synced: bool,
    /// The tip block's hash.
    pub tip_hash: Vec<u8>,
    /// The tip height.
    pub height_of_longest_chain: u64,
}

/// The reply to a matching-outputs query.
pub struct FetchUtxosResponse {
    /// The unspent, unpruned outputs found.
    pub outputs: Vec<TransactionOutput>,
    /// Whether this node believes it is in sync.
    pub is_synced: bool,
}

/// A deleted-positions query.
pub struct QueryDeletedRequest {
    /// The accumulator positions to classify.
    pub mmr_positions: Vec<u64>,
    /// Whether to also report where deletions happened.
    pub include_deleted_block_data: bool,
    /// A header the chain must include, or the query is refused.
    pub chain_must_include_header: Option<Vec<u8>>,
}

/// The reply to a deleted-positions query.
pub struct QueryDeletedResponse {
    /// The tip height.
    pub height_of_longest_chain: u64,
    /// The tip block's hash.
    pub best_block: Vec<u8>,
    /// The queried positions found deleted, in query order.
    pub deleted_positions: Vec<u64>,
    /// The queried positions not deleted, in query order.
    pub not_deleted_positions: Vec<u64>,
    /// The blocks the deletions happened in, when requested.
    pub blocks_deleted_in: Vec<Vec<u8>>,
    /// The heights the deletions happened at, when requested.
    pub heights_deleted_at: Vec<u64>,
}

/// The location triple a transaction query resolves to: location, mined
/// block hash, and confirmations.
pub open spec fn spec_tx_query(
    kernels: Seq<KernelInfo>,
    headers: Seq<HeaderInfo>,
    tip: u64,
    entries: Seq<(Vec<u8>, TxStorageResponse)>,
    sig: Seq<u8>,
) -> (TxLocation, Option<Seq<u8>>, int) {
    let mined = match spec_kernel_block_hash(kernels, sig) {
        Some(bh) => match spec_header_height_by_hash(headers, bh) {
            Some(hh) => Some((bh, if tip >= hh {
                tip - hh
            } else {
                0int
            })),
            None => None,
        },
        None => None,
    };
    match mined {
        Some((bh, confirmations)) => (TxLocation::Mined, Some(bh), confirmations),
        None => match spec_mempool_verdict(entries, sig) {
            Some(TxStorageResponse::UnconfirmedPool) => (
                TxLocation::InMempool,
                None::<Seq<u8>>,
                0int,
            ),
            _ => (TxLocation::NotStored, None::<Seq<u8>>, 0int),
        },
    }
}

/// The wallet-facing RPC service of a base node.
pub struct BaseNodeWalletRpcService {
    /// The chain state this node serves.
    pub db: BlockchainStateModel,
    /// The mempool this node consults.
    pub mempool: MempoolModel,
    /// The node's state machine.
    pub state_machine: StateMachineModel,
}

impl BaseNodeWalletRpcService {
    /// A service over the given chain state, mempool and state machine.
    pub fn new(
        db: BlockchainStateModel,
        mempool: MempoolModel,
        state_machine: StateMachineModel,
    ) -> (r: Self)
        ensures
            r.db == db,
            r.mempool == mempool,
            r.state_machine == state_machine,
    {
        BaseNodeWalletRpcService { db, mempool, state_machine }
    }

    /// The chain state this service reads.
    pub fn db(&self) -> (r: &BlockchainStateModel)
        ensures
            *r == self.db,
    {
        &self.db
    }

    /// The mempool this service consults.
    pub fn mempool(&self) -> (r: &MempoolModel)
        ensures
            *r == self.mempool,
    {
        &self.mempool
    }

    /// The node's state machine.
    pub fn state_machine(&self) -> (r: StateMachineModel)
        ensures
            r == self.state_machine,
    {
        self.state_machine
    }

    /// Whether the node is listening and believes it is in sync.
    fn is_synced(&self) -> (r: bool)
        ensures
            r == self.state_machine.synced_listening,
    {
        self.state_machine.synced_listening
    }

    /// The block hash of the first mined kernel carrying the signature.
    fn find_kernel_block_hash(&self, sig: &[u8]) -> (r: Option<Vec<u8>>)
        ensures
            match r {
                Some(bh) => spec_kernel_block_hash(self.db.kernels@, sig@) == Some(bh@),
                None => spec_kernel_block_hash(self.db.kernels@, sig@) is None,
            },
    {
        let ghost ks = self.db.kernels@;
        proof {
            assert(ks.skip(0) =~= ks);
        }
        let n = self.db.kernels.len();
        let mut i: usize = 0;
        while i < n
            invariant
                0 <= i <= n,
                n == ks.len(),
                ks == self.db.kernels@,
                spec_kernel_block_hash(ks, sig@) == spec_kernel_block_hash(
                    ks.skip(i as int),
                    sig@,
                ),
            decreases n - i,
        {
            proof {
                assert(ks.skip(i as int).first() == ks[i as int]);
                assert(ks.skip(i as int).drop_first() =~= ks.skip(i as int + 1));
            }
            if bytes_eq(self.db.kernels[i].excess_sig.as_slice(), sig) {
                return Some(clone_bytes(&self.db.kernels[i].block_hash));
            }
            i += 1;
        }
        proof {
            assert(ks.skip(n as int) =~= Seq::<KernelInfo>::empty());
        }
        None
    }

    /// The height of the first header with the given hash.
    fn find_header_height_by_hash(&self, hash: &[u8]) -> (r: Option<u64>)
        ensures
            r == spec_header_height_by_hash(self.db.headers@, hash@),
    {
        let ghost hs = self.db.headers@;
        proof {
            assert(hs.skip(0) =~= hs);
        }
        let n = self.db.headers.len();
        let mut i: usize = 0;
        while i < n
            invariant
                0 <= i <= n,
                n == hs.len(),
                hs == self.db.headers@,
                spec_header_height_by_hash(hs, hash@) == spec_header_height_by_hash(
                    hs.skip(i as int),
                    hash@,
                ),
            decreases n - i,
        {
            proof {
                assert(hs.skip(i as int).first() == hs[i as int]);
                assert(hs.skip(i as int).drop_first() =~= hs.skip(i as int + 1));
            }
            if bytes_eq(self.db.headers[i].hash.as_slice(), hash) {
                return Some(self.db.headers[i].height);
            }
            i += 1;
        }
        proof {
            assert(hs.skip(n as int) =~= Seq::<HeaderInfo>::empty());
        }
        None
    }

    /// The hash of the first header at the given height.
    fn find_header_hash_by_height(&self, height: u64) -> (r: Option<Vec<u8>>)
        ensures
            match r {
                Some(h) => spec_header_hash_by_height(self.db.headers@, height) == Some(h@),
                None => spec_header_hash_by_height(self.db.headers@, height) is None,
            },
    {
        let ghost hs = self.db.headers@;
        proof {
            assert(hs.skip(0) =~= hs);
        }
        let n = self.db.headers.len();
        let mut i: usize = 0;
        while i < n
            invariant
                0 <= i <= n,
                n == hs.len(),
                hs == self.db.headers@,
                spec_header_hash_by_height(hs, height) == spec_header_hash_by_height(
                    hs.skip(i as int),
                    height,
                ),
            decreases n - i,
        {
            proof {
                assert(hs.skip(i as int).first() == hs[i as int]);
                assert(hs.skip(i as int).drop_first() =~= hs.skip(i as int + 1));
            }
            if self.db.headers[i].height == height {
                return Some(clone_bytes(&self.db.headers[i].hash));
            }
            i += 1;
        }
        proof {
            assert(hs.skip(n as int) =~= Seq::<HeaderInfo>::empty());
        }
        None
    }

    /// Resolves a transaction's location: mined — when its kernel and the
    /// holding block's header are known — else the mempool's verdict.
    fn fetch_kernel(&self, signature: &Vec<u8>) -> (r: TxQueryResponse)
        ensures
            ({
                let (location, bh, confirmations) = spec_tx_query(
                    self.db.kernels@,
                    self.db.headers@,
                    self.db.height_of_longest_chain,
                    self.mempool.entries@,
                    signature@,
                );
                &&& r.location == location
                &&& (match bh {
                    Some(b) => r.block_hash matches Some(rb) && rb@ == b,
                    None => r.block_hash is None,
                })
                &&& r.confirmations == confirmations
                &&& r.is_synced == true
                &&& r.height_of_longest_chain == self.db.height_of_longest_chain
            }),
    {
        let tip = self.db.height_of_longest_chain;
        match self.find_kernel_block_hash(signature.as_slice()) {
            Some(block_hash) => {
                match self.find_header_height_by_hash(block_hash.as_slice()) {
                    Some(header_height) => {
                        let confirmations = if tip >= header_height {
                            tip - header_height
                        } else {
                            0
                        };
                        return TxQueryResponse {
                            location: TxLocation::Mined,
                            block_hash: Some(block_hash),
                            confirmations,
                            is_synced: true,
                            height_of_longest_chain: tip,
                        };
                    },
                    None => {},
                }
            },
            None => {},
        }
        let verdict = self.mempool.get_tx_state_by_excess_sig(signature);
        let location = match verdict {
            TxStorageResponse::UnconfirmedPool => TxLocation::InMempool,
            _ => TxLocation::NotStored,
        };
        TxQueryResponse {
            location,
            block_hash: None,
            confirmations: 0,
            is_synced: true,
            height_of_longest_chain: tip,
        }
    }

    /// Submits a transaction to the mempool and classifies the outcome. A
    /// transaction whose kernel and block are already on chain is reported
    /// as already mined; a spent-input refusal otherwise reports a double
    /// spend.
    pub fn submit_transaction(&mut self, transaction: &crate::builder::Transaction) -> (r:
        TxSubmissionResponse)
        ensures
            r.is_synced == old(self).state_machine.synced_listening,
            final(self).db == old(self).db,
            final(self).state_machine == old(self).state_machine,
            final(self).mempool.entries@.len() >= old(self).mempool.entries@.len(),
            ({
                let sig = if transaction@.kernels.len() > 0 {
                    transaction@.kernels[0].excess_sig
                } else {
                    Seq::<u8>::empty()
                };
                let verdict = match spec_mempool_verdict(old(self).mempool.entries@, sig) {
                    Some(v) => v,
                    None => TxStorageResponse::UnconfirmedPool,
                };
                &&& (r.accepted <==> verdict == TxStorageResponse::UnconfirmedPool)
                &&& r.rejection_reason == (match verdict {
                    TxStorageResponse::UnconfirmedPool => TxSubmissionRejectionReason::NotRejected,
                    TxStorageResponse::NotStoredOrphan => TxSubmissionRejectionReason::Orphan,
                    TxStorageResponse::NotStoredTimeLocked => TxSubmissionRejectionReason::TimeLocked,
                    TxStorageResponse::NotStored => TxSubmissionRejectionReason::ValidationFailed,
                    _ => if transaction@.kernels.len() > 0 && spec_kernel_block_hash(
                        old(self).db.kernels@,
                        sig,
                    ) is Some {
                        TxSubmissionRejectionReason::AlreadyMined
                    } else {
                        TxSubmissionRejectionReason::DoubleSpend
                    },
                })
            }),
    {
        let is_synced = self.is_synced();
        let sig: Vec<u8> = match transaction.first_kernel_excess_sig() {
            Some(s) => clone_bytes(s),
            None => Vec::new(),
        };
        proof {
            if transaction@.kernels.len() == 0 {
                assert(sig@ =~= Seq::<u8>::empty());
            }
        }
        let verdict = self.mempool.submit(&sig);
        match verdict {
            TxStorageResponse::UnconfirmedPool => TxSubmissionResponse {
                accepted: true,
                rejection_reason: TxSubmissionRejectionReason::NotRejected,
                is_synced,
            },
            TxStorageResponse::NotStoredOrphan => TxSubmissionResponse {
                accepted: false,
                rejection_reason: TxSubmissionRejectionReason::Orphan,
                is_synced,
            },
            TxStorageResponse::NotStoredTimeLocked => TxSubmissionResponse {
                accepted: false,
                rejection_reason: TxSubmissionRejectionReason::TimeLocked,
                is_synced,
            },
            TxStorageResponse::NotStored => TxSubmissionResponse {
                accepted: false,
                rejection_reason: TxSubmissionRejectionReason::ValidationFailed,
                is_synced,
            },
            _ => {
                let mut already_mined = false;
                if transaction.kernels.len() > 0 {
                    match self.find_kernel_block_hash(sig.as_slice()) {
                        Some(_) => {
                            already_mined = true;
                        },
                        None => {},
                    }
                }
                TxSubmissionResponse {
                    accepted: false,
                    rejection_reason: if already_mined {
                        TxSubmissionRejectionReason::AlreadyMined
                    } else {
                        TxSubmissionRejectionReason::DoubleSpend
                    },
                    is_synced,
                }
            },
        }
    }

    /// Resolves one transaction's location, reporting this node's sync
    /// state.
    pub fn transaction_query(&self, signature: &Vec<u8>) -> (r: TxQueryResponse)
        ensures
            ({
                let (location, bh, confirmations) = spec_tx_query(
                    self.db.kernels@,
                    self.db.headers@,
                    self.db.height_of_longest_chain,
                    self.mempool.entries@,
                    signature@,
                );
                &&& r.location == location
                &&& (match bh {
                    Some(b) => r.block_hash matches Some(rb) && rb@ == b,
                    None => r.block_hash is None,
                })
                &&& r.confirmations == confirmations
                &&& r.is_synced == self.state_machine.synced_listening
                &&& r.height_of_longest_chain == self.db.height_of_longest_chain
            }),
    {
        let mut response = self.fetch_kernel(signature);
        response.is_synced = self.is_synced();
        response
    }

    /// Resolves each queried signature, with the height it was mined at:
    /// the tip height minus the confirmations.
    pub fn transaction_batch_query(&self, signatures: &Vec<Vec<u8>>) -> (r: TxQueryBatchResponses)
        ensures
            r.is_synced == self.state_machine.synced_listening,
            r.tip_hash@ == self.db.best_block@,
            r.height_of_longest_chain == self.db.height_of_longest_chain,
            r.responses@.len() == signatures@.len(),
            forall|i: int|
                0 <= i < signatures@.len() ==> {
                    let (location, bh, confirmations) = spec_tx_query(
                        self.db.kernels@,
                        self.db.headers@,
                        self.db.height_of_longest_chain,
                        self.mempool.entries@,
                        signatures@[i]@,
                    );
                    let resp = #[trigger] r.responses@[i];
                    &&& resp.signature@ == signatures@[i]@
                    &&& resp.location == location
                    &&& resp.confirmations == confirmations
                    &&& resp.block_height == self.db.height_of_longest_chain - confirmations
                },
    {
        let tip = self.db.height_of_longest_chain;
        let mut responses: Vec<TxQueryBatchResponse> = Vec::new();
        let n = signatures.len();
        let mut i: usize = 0;
        while i < n
            invariant
                0 <= i <= n,
                n == signatures@.len(),
                tip == self.db.height_of_longest_chain,
                responses@.len() == i,
                forall|j: int|
                    0 <= j < i ==> {
                        let (location, bh, confirmations) = spec_tx_query(
                            self.db.kernels@,
                            self.db.headers@,
                            self.db.height_of_longest_chain,
                            self.mempool.entries@,
                            signatures@[j]@,
                        );
                        let resp = #[trigger] responses@[j];
                        &&& resp.signature@ == signatures@[j]@
                        &&& resp.location == location
                        &&& resp.confirmations == confirmations
                        &&& resp.block_height == self.db.height_of_longest_chain - confirmations
                    },
            decreases n - i,
        {
            let response = self.fetch_kernel(&signatures[i]);
            proof {
                let (location, bh, confirmations) = spec_tx_query(
                    self.db.kernels@,
                    self.db.headers@,
                    self.db.height_of_longest_chain,
                    self.mempool.entries@,
                    signatures@[i as int]@,
                );
                assert(confirmations <= tip);
            }
            responses.push(
                TxQueryBatchResponse {
                    signature: clone_bytes(&signatures[i]),
                    location: response.location,
                    block_hash: response.block_hash,
                    confirmations: response.confirmations,
                    block_height: tip - response.confirmations,
                },
            );
            i += 1;
        }
        TxQueryBatchResponses {
            responses,
            is_synced: self.is_synced(),
            tip_hash: clone_bytes(&self.db.best_block),
            height_of_longest_chain: tip,
        }
    }

    /// This node's tip metadata and sync state.
    pub fn get_tip_info(&self) -> (r: TipInfoResponse)
        ensures
            r.height_of_longest_chain == self.db.height_of_longest_chain,
            r.best_block@ == self.db.best_block@,
            r.is_synced == self.state_machine.synced_listening,
    {
        TipInfoResponse {
            height_of_longest_chain: self.db.height_of_longest_chain,
            best_block: clone_bytes(&self.db.best_block),
            is_synced: self.is_synced(),
        }
    }

    /// The header at a height, or a not-found status.
    pub fn get_header(&self, height: u64) -> (r: Result<HeaderInfo, RpcStatus>)
        ensures
            r is Ok <==> spec_header_hash_by_height(self.db.headers@, height) is Some,
            r matches Ok(h) ==> spec_header_hash_by_height(self.db.headers@, height) == Some(
                h.hash@,
            ) && h.height == height,
            r matches Err(e) ==> e is NotFound,
    {
        match self.find_header_hash_by_height(height) {
            Some(hash) => Ok(HeaderInfo { height, hash }),
            None => Err(
                RpcStatus::NotFound(
                    <String as vstd::string::StringExecFns>::from_str("header not found at height"),
                ),
            ),
        }
    }

    /// The first mined-output record with the given hash, if any.
    pub fn find_utxo(&self, hash: &[u8]) -> (r: Option<&UtxoMinedInfo>)
        ensures
            match r {
                Some(u) => spec_find_utxo(self.db.utxos@, hash@) == Some(*u),
                None => spec_find_utxo(self.db.utxos@, hash@) is None,
            },
    {
        let ghost us = self.db.utxos@;
        proof {
            assert(us.skip(0) =~= us);
        }
        let n = self.db.utxos.len();
        let mut i: usize = 0;
        while i < n
            invariant
                0 <= i <= n,
                n == us.len(),
                us == self.db.utxos@,
                spec_find_utxo(us, hash@) == spec_find_utxo(us.skip(i as int), hash@),
            decreases n - i,
        {
            proof {
                assert(us.skip(i as int).first() == us[i as int]);
                assert(us.skip(i as int).drop_first() =~= us.skip(i as int + 1));
            }
            if bytes_eq(self.db.utxos[i].hash.as_slice(), hash) {
                return Some(&self.db.utxos[i]);
            }
            i += 1;
        }
        proof {
            assert(us.skip(n as int) =~= Seq::<UtxoMinedInfo>::empty());
        }
        None
    }

    /// The unspent, unpruned outputs among the queried hashes, in query
    /// order.
    pub fn fetch_matching_utxos(&self, output_hashes: &Vec<Vec<u8>>) -> (r: FetchUtxosResponse)
        ensures
            r.is_synced == self.state_machine.synced_listening,
            r.outputs@.map_values(|o: TransactionOutput| o@) == spec_matching_utxos(
                self.db.utxos@,
                output_hashes@.map_values(|h: Vec<u8>| h@),
            ),
    {
        let ghost hv = output_hashes@.map_values(|h: Vec<u8>| h@);
        let mut outputs: Vec<TransactionOutput> = Vec::new();
        proof {
            assert(hv.skip(0) =~= hv);
            assert(outputs@.map_values(|o: TransactionOutput| o@) =~= Seq::<
                TransactionOutputV,
            >::empty());
        }
        let n = output_hashes.len();
        let mut i: usize = 0;
        while i < n
            invariant
                0 <= i <= n,
                n == output_hashes@.len(),
                hv == output_hashes@.map_values(|h: Vec<u8>| h@),
                spec_matching_utxos(self.db.utxos@, hv) =~= outputs@.map_values(
                    |o: TransactionOutput| o@,
                ) + spec_matching_utxos(self.db.utxos@, hv.skip(i as int)),
            decreases n - i,
        {
            proof {
                assert(hv.skip(i as int).first() == hv[i as int]);
                assert(hv.skip(i as int).drop_first() =~= hv.skip(i as int + 1));
                assert(hv[i as int] == output_hashes@[i as int]@);
            }
            match self.find_utxo(output_hashes[i].as_slice()) {
                Some(u) => {
                    if !u.pruned && !u.spent {
                        let item = u.output.clone();
                        let ghost prev = outputs@.map_values(|o: TransactionOutput| o@);
                        outputs.push(item);
                        proof {
                            assert(outputs@.map_values(|o: TransactionOutput| o@) =~= prev.push(
                                item@,
                            ));
                            assert(prev + (seq![item@] + spec_matching_utxos(
                                self.db.utxos@,
                                hv.skip(i as int + 1),
                            )) =~= outputs@.map_values(|o: TransactionOutput| o@)
                                + spec_matching_utxos(self.db.utxos@, hv.skip(i as int + 1)));
                        }
                    }
                },
                None => {},
            }
            i += 1;
        }
        proof {
            assert(hv.skip(n as int) =~= Seq::<Seq<u8>>::empty());
            assert(outputs@.map_values(|o: TransactionOutput| o@) + Seq::<
                TransactionOutputV,
            >::empty() =~= outputs@.map_values(|o: TransactionOutput| o@));
        }
        FetchUtxosResponse { outputs, is_synced: self.is_synced() }
    }

    /// The mined-output records for the queried hashes, in query order; the
    /// output body is withheld when pruned.
    pub fn utxo_query(&self, output_hashes: &Vec<Vec<u8>>) -> (r: UtxoQueryResponses)
        ensures
            r.height_of_longest_chain == self.db.height_of_longest_chain,
            r.best_block@ == self.db.best_block@,
            r.responses@.map_values(|e: UtxoQueryResponseEntry| spec_utxo_entry_view(e))
                == spec_utxo_query_entries(
                self.db.utxos@,
                output_hashes@.map_values(|h: Vec<u8>| h@),
            ),
    {
        let ghost hv = output_hashes@.map_values(|h: Vec<u8>| h@);
        let ghost entry_view = |e: UtxoQueryResponseEntry| spec_utxo_entry_view(e);
        let mut responses: Vec<UtxoQueryResponseEntry> = Vec::new();
        proof {
            assert(hv.skip(0) =~= hv);
            assert(responses@.map_values(entry_view) =~= Seq::<
                (u64, u64, Seq<u8>, Seq<u8>, Option<TransactionOutputV>),
            >::empty());
        }
        let n = output_hashes.len();
        let mut i: usize = 0;
        while i < n
            invariant
                0 <= i <= n,
                n == output_hashes@.len(),
                hv == output_hashes@.map_values(|h: Vec<u8>| h@),
                entry_view == (|e: UtxoQueryResponseEntry| spec_utxo_entry_view(e)),
                spec_utxo_query_entries(self.db.utxos@, hv) =~= responses@.map_values(entry_view)
                    + spec_utxo_query_entries(self.db.utxos@, hv.skip(i as int)),
            decreases n - i,
        {
            proof {
                assert(hv.skip(i as int).first() == hv[i as int]);
                assert(hv.skip(i as int).drop_first() =~= hv.skip(i as int + 1));
                assert(hv[i as int] == output_hashes@[i as int]@);
            }
            match self.find_utxo(output_hashes[i].as_slice()) {
                Some(u) => {
                    let output = if u.pruned {
                        None
                    } else {
                        Some(u.output.clone())
                    };
                    let entry = UtxoQueryResponseEntry {
                        mmr_position: u.mmr_position,
                        mined_height: u.mined_height,
                        mined_in_block: clone_bytes(&u.header_hash),
                        output_hash: clone_bytes(&u.hash),
                        output,
                    };
                    let ghost prev = responses@.map_values(entry_view);
                    let ghost ev = spec_utxo_entry_view(entry);
                    responses.push(entry);
                    proof {
                        assert(responses@.map_values(entry_view) =~= prev.push(ev));
                        let rest = spec_utxo_query_entries(
                            self.db.utxos@,
                            hv.skip(i as int + 1),
                        );
                        assert(prev + (seq![ev] + rest) =~= responses@.map_values(entry_view)
                            + rest);
                    }
                },
                None => {},
            }
            i += 1;
        }
        proof {
            assert(hv.skip(n as int) =~= Seq::<Seq<u8>>::empty());
            assert(responses@.map_values(entry_view) + Seq::<
                (u64, u64, Seq<u8>, Seq<u8>, Option<TransactionOutputV>),
            >::empty() =~= responses@.map_values(entry_view));
        }
        UtxoQueryResponses {
            responses,
            height_of_longest_chain: self.db.height_of_longest_chain,
            best_block: clone_bytes(&self.db.best_block),
        }
    }

    /// Classifies the queried accumulator positions into deleted and not
    /// deleted, in query order. Positions beyond the thirty-two-bit range are
    /// refused; a required header that the chain lacks refuses the whole
    /// query.
    pub fn query_deleted(&self, request: &QueryDeletedRequest) -> (r: Result<
        QueryDeletedResponse,
        RpcStatus,
    >)
        ensures
            (match request.chain_must_include_header {
                Some(ref h) => spec_header_height_by_hash(self.db.headers@, h@) is None,
                None => false,
            }) <==> (r matches Err(e) && e is NotFound),
            !(match request.chain_must_include_header {
                Some(ref h) => spec_header_height_by_hash(self.db.headers@, h@) is None,
                None => false,
            }) ==> ((r matches Err(e) && e is BadRequest) <==> exists|i: int|
                0 <= i < request.mmr_positions@.len() && #[trigger] request.mmr_positions@[i]
                    > u32::MAX),
            r is Ok <==> (!(match request.chain_must_include_header {
                Some(ref h) => spec_header_height_by_hash(self.db.headers@, h@) is None,
                None => false,
            }) && (forall|i: int|
                0 <= i < request.mmr_positions@.len() ==> #[trigger] request.mmr_positions@[i]
                    <= u32::MAX)),
            r matches Ok(resp) ==> {
                let (del, not_del) = spec_partition_deleted(
                    self.db.deleted@,
                    request.mmr_positions@,
                );
                let (heights, blocks) = spec_deleted_block_data(self.db.deleted@, del);
                &&& resp.height_of_longest_chain == self.db.height_of_longest_chain
                &&& resp.best_block@ == self.db.best_block@
                &&& resp.deleted_positions@ == del
                &&& resp.not_deleted_positions@ == not_del
                &&& (request.include_deleted_block_data ==> resp.heights_deleted_at@ == heights
                    && resp.blocks_deleted_in@.map_values(|b: Vec<u8>| b@) == blocks)
                &&& (!request.include_deleted_block_data ==> resp.heights_deleted_at@.len() == 0
                    && resp.blocks_deleted_in@.len() == 0)
            },
    {
        match &request.chain_must_include_header {
            Some(h) => {
                if self.find_header_height_by_hash(h.as_slice()).is_none() {
                    return Err(
                        RpcStatus::NotFound(
                            <String as vstd::string::StringExecFns>::from_str(
                                "chain does not include header",
                            ),
                        ),
                    );
                }
            },
            None => {},
        }
        let ghost pv = request.mmr_positions@;
        let mut deleted_positions: Vec<u64> = Vec::new();
        let mut not_deleted_positions: Vec<u64> = Vec::new();
        proof {
            assert(pv.skip(0) =~= pv);
        }
        let n = request.mmr_positions.len();
        let mut i: usize = 0;
        while i < n
            invariant
                0 <= i <= n,
                n == pv.len(),
                pv == request.mmr_positions@,
                forall|j: int| 0 <= j < i ==> #[trigger] pv[j] <= u32::MAX,
                forall|k: int|
                    0 <= k < deleted_positions@.len() ==> #[trigger] deleted_positions@[k]
                        <= u32::MAX,
                !(match request.chain_must_include_header {
                    Some(ref h) => spec_header_height_by_hash(self.db.headers@, h@) is None,
                    None => false,
                }),
                ({
                    let (del, not_del) = spec_partition_deleted(self.db.deleted@, pv);
                    let (rdel, rnot) = spec_partition_deleted(
                        self.db.deleted@,
                        pv.skip(i as int),
                    );
                    (forall|j: int| 0 <= j < pv.len() ==> #[trigger] pv[j] <= u32::MAX) ==> (del
                        =~= deleted_positions@ + rdel && not_del =~= not_deleted_positions@
                        + rnot)
                }),
            decreases n - i,
        {
            proof {
                assert(pv.skip(i as int).first() == pv[i as int]);
                assert(pv.skip(i as int).drop_first() =~= pv.skip(i as int + 1));
            }
            let position = request.mmr_positions[i];
            if position > u32::MAX as u64 {
                proof {
                    assert(#[trigger] pv[i as int] > u32::MAX);
                }
                return Err(
                    RpcStatus::BadRequest(
                        <String as vstd::string::StringExecFns>::from_str(
                            "position must fit into thirty-two bits",
                        ),
                    ),
                );
            }
            let narrow = position as u32;
            if self.position_deleted(narrow) {
                let ghost prev = deleted_positions@;
                deleted_positions.push(position);
                proof {
                    assert(deleted_positions@ =~= prev.push(pv[i as int]));
                    if forall|j: int| 0 <= j < pv.len() ==> #[trigger] pv[j] <= u32::MAX {
                        let (rdel, rnot) = spec_partition_deleted(
                            self.db.deleted@,
                            pv.skip(i as int + 1),
                        );
                        assert(prev + (seq![pv[i as int]] + rdel) =~= deleted_positions@ + rdel);
                    }
                }
            } else {
                let ghost prev = not_deleted_positions@;
                not_deleted_positions.push(position);
                proof {
                    assert(not_deleted_positions@ =~= prev.push(pv[i as int]));
                    if forall|j: int| 0 <= j < pv.len() ==> #[trigger] pv[j] <= u32::MAX {
                        let (rdel, rnot) = spec_partition_deleted(
                            self.db.deleted@,
                            pv.skip(i as int + 1),
                        );
                        assert(prev + (seq![pv[i as int]] + rnot) =~= not_deleted_positions@
                            + rnot);
                    }
                }
            }
            i += 1;
        }
        proof {
            assert(pv.skip(n as int) =~= Seq::<u64>::empty());
            let (del, not_del) = spec_partition_deleted(self.db.deleted@, pv);
            assert(deleted_positions@ + Seq::<u64>::empty() =~= deleted_positions@);
            assert(not_deleted_positions@ + Seq::<u64>::empty() =~= not_deleted_positions@);
        }
        let mut blocks_deleted_in: Vec<Vec<u8>> = Vec::new();
        let mut heights_deleted_at: Vec<u64> = Vec::new();
        if request.include_deleted_block_data {
            let ghost del = deleted_positions@;
            proof {
                assert(del.skip(0) =~= del);
            }
            let m = deleted_positions.len();
            let mut j: usize = 0;
            while j < m
                invariant
                    0 <= j <= m,
                    m == del.len(),
                    del == deleted_positions@,
                    forall|k: int| 0 <= k < del.len() ==> #[trigger] del[k] <= u32::MAX,
                    ({
                        let (heights, blocks) = spec_deleted_block_data(self.db.deleted@, del);
                        let (rh, rb) = spec_deleted_block_data(
                            self.db.deleted@,
                            del.skip(j as int),
                        );
                        heights =~= heights_deleted_at@ + rh && blocks
                            =~= blocks_deleted_in@.map_values(|b: Vec<u8>| b@) + rb
                    }),
                decreases m - j,
            {
                proof {
                    assert(del.skip(j as int).first() == del[j as int]);
                    assert(del.skip(j as int).drop_first() =~= del.skip(j as int + 1));
                }
                match self.find_deleted_info(deleted_positions[j] as u32) {
                    Some((height, hash)) => {
                        let ghost prev_h = heights_deleted_at@;
                        let ghost prev_b = blocks_deleted_in@.map_values(|b: Vec<u8>| b@);
                        let ghost hv = hash@;
                        heights_deleted_at.push(height);
                        blocks_deleted_in.push(hash);
                        proof {
                            assert(heights_deleted_at@ =~= prev_h.push(height));
                            assert(blocks_deleted_in@.map_values(|b: Vec<u8>| b@) =~= prev_b.push(
                                hv,
                            ));
                            let (rh, rb) = spec_deleted_block_data(
                                self.db.deleted@,
                                del.skip(j as int + 1),
                            );
                            assert(prev_h + (seq![height] + rh) =~= heights_deleted_at@ + rh);
                            assert(prev_b + (seq![hv] + rb) =~= blocks_deleted_in@.map_values(
                                |b: Vec<u8>| b@,
                            ) + rb);
                        }
                    },
                    None => {},
                }
                j += 1;
            }
            proof {
                assert(del.skip(m as int) =~= Seq::<u64>::empty());
                let (heights, blocks) = spec_deleted_block_data(self.db.deleted@, del);
                assert(heights_deleted_at@ + Seq::<u64>::empty() =~= heights_deleted_at@);
                assert(blocks_deleted_in@.map_values(|b: Vec<u8>| b@) + Seq::<Seq<u8>>::empty()
                    =~= blocks_deleted_in@.map_values(|b: Vec<u8>| b@));
            }
        }
        Ok(
            QueryDeletedResponse {
                height_of_longest_chain: self.db.height_of_longest_chain,
                best_block: clone_bytes(&self.db.best_block),
                deleted_positions,
                not_deleted_positions,
                blocks_deleted_in,
                heights_deleted_at,
            },
        )
    }

    /// Whether an accumulator position is recorded as deleted.
    pub fn position_deleted(&self, position: u32) -> (r: bool)
        ensures
            r == spec_position_deleted(self.db.deleted@, position),
    {
        let n = self.db.deleted.len();
        let mut i: usize = 0;
        while i < n
            invariant
                0 <= i <= n,
                n == self.db.deleted@.len(),
                forall|j: int| 0 <= j < i ==> (#[trigger] self.db.deleted@[j]).position != position,
            decreases n - i,
        {
            if self.db.deleted[i].position == position {
                proof {
                    assert((#[trigger] self.db.deleted@[i as int]).position == position);
                }
                return true;
            }
            i += 1;
        }
        proof {
            if spec_position_deleted(self.db.deleted@, position) {
                let j = choose|j: int|
                    0 <= j < self.db.deleted@.len() && (#[trigger] self.db.deleted@[j]).position
                        == position;
            }
        }
        false
    }

    /// The height and block of the first recorded deletion of a position.
    fn find_deleted_info(&self, position: u32) -> (r: Option<(u64, Vec<u8>)>)
        ensures
            match r {
                Some((height, block)) => spec_deleted_info(self.db.deleted@, position) == Some(
                    (height, block@),
                ),
                None => spec_deleted_info(self.db.deleted@, position) is None,
            },
    {
        let ghost dv = self.db.deleted@;
        proof {
            assert(dv.skip(0) =~= dv);
        }
        let n = self.db.deleted.len();
        let mut i: usize = 0;
        while i < n
            invariant
                0 <= i <= n,
                n == dv.len(),
                dv == self.db.deleted@,
                spec_deleted_info(dv, position) == spec_deleted_info(dv.skip(i as int), position),
            decreases n - i,
        {
            proof {
                assert(dv.skip(i as int).first() == dv[i as int]);
                assert(dv.skip(i as int).drop_first() =~= dv.skip(i as int + 1));
            }
            if self.db.deleted[i].position == position {
                return Some(
                    (self.db.deleted[i].height, clone_bytes(&self.db.deleted[i].block_hash)),
                );
            }
            i += 1;
        }
        proof {
            assert(dv.skip(n as int) =~= Seq::<DeletedPositionInfo>::empty());
        }
        None
    }

    /// The header at a height, or a not-found status. This dispatches by
    /// height exactly as `get_header` does; no by-hash index exists.
    pub fn get_header_by_height(&self, height: u64) -> (r: Result<HeaderInfo, RpcStatus>)
        ensures
            r is Ok <==> spec_header_hash_by_height(self.db.headers@, height) is Some,
            r matches Ok(h) ==> spec_header_hash_by_height(self.db.headers@, height) == Some(
                h.hash@,
            ) && h.height == height,
            r matches Err(e) ==> e is NotFound,
    {
        match self.find_header_hash_by_height(height) {
            Some(hash) => Ok(HeaderInfo { height, hash }),
            None => Err(
                RpcStatus::NotFound(
                    <String as vstd::string::StringExecFns>::from_str("header not found at height"),
                ),
            ),
        }
    }
}

} // verus!
