//! Transactions and the sender/receiver protocol records.

use vstd::prelude::*;
use vstd::bytes::spec_u64_to_le_bytes;
use vstd::bytes::u64_to_le_bytes;
use crate::crypto::blake2b_of;
use crate::crypto::blake2b_digest;
use crate::crypto::clone_bytes;
use crate::crypto::TAG_SIGNATURE;
use crate::output::push_field;
use crate::output::spec_field;
use crate::output::TransactionOutput;
use crate::output::TransactionOutputV;
use crate::output::UnblindedOutput;
use crate::output::UnblindedOutputV;
use crate::script::TariScript;

verus! {

/// Kernel feature flags of an ordinary transaction.
pub const KERNEL_FEATURES_EMPTY: u8 = 0;
/// Kernel feature flag marking a coinbase kernel.
pub const KERNEL_FEATURES_COINBASE: u8 = 1;

/// The excess signature binding a transaction's scalars, fee and lock height;
/// it identifies the transaction in base-node queries.
pub open spec fn spec_excess_sig(offset: Seq<u8>, nonce: Seq<u8>, fee: u64, lock_height: u64, features: u8) -> Seq<u8> {
    blake2b_of(
        seq![TAG_SIGNATURE, 3u8, features] + spec_field(offset) + spec_field(nonce) + spec_field(
            spec_u64_to_le_bytes(fee),
        ) + spec_field(spec_u64_to_le_bytes(lock_height)),
    )
}

/// Computes a kernel's excess signature.
pub fn excess_sig(offset: &[u8], nonce: &[u8], fee: u64, lock_height: u64, features: u8) -> (r: Vec<
    u8,
>)
    ensures
        r@ == spec_excess_sig(offset@, nonce@, fee, lock_height, features),
{
    let mut preimage: Vec<u8> = Vec::new();
    preimage.push(TAG_SIGNATURE);
    preimage.push(3u8);
    preimage.push(features);
    push_field(&mut preimage, offset);
    push_field(&mut preimage, nonce);
    let fee_bytes = u64_to_le_bytes(fee);
    push_field(&mut preimage, fee_bytes.as_slice());
    let lock_bytes = u64_to_le_bytes(lock_height);
    push_field(&mut preimage, lock_bytes.as_slice());
    proof {
        assert(preimage@ =~= seq![TAG_SIGNATURE, 3u8, features] + spec_field(offset@) + spec_field(
            nonce@,
        ) + spec_field(spec_u64_to_le_bytes(fee)) + spec_field(spec_u64_to_le_bytes(lock_height)));
    }
    blake2b_digest(preimage.as_slice())
}

/// A transaction kernel: fee, lock height, features and the excess signature.
pub struct TransactionKernel {
    /// Feature flags; coinbase kernels carry the coinbase flag.
    pub features: u8,
    /// The fee, in micro-units.
    pub fee: u64,
    /// The earliest height the transaction may be mined at.
    pub lock_height: u64,
    /// The excess signature identifying the transaction.
    pub excess_sig: Vec<u8>,
}

/// Mathematical model of a kernel.
pub struct TransactionKernelV {
    /// Feature flags.
    pub features: u8,
    /// The fee.
    pub fee: u64,
    /// The lock height.
    pub lock_height: u64,
    /// The excess signature bytes.
    pub excess_sig: Seq<u8>,
}

impl View for TransactionKernel {
    type V = TransactionKernelV;

    open spec fn view(&self) -> TransactionKernelV {
        TransactionKernelV {
            features: self.features,
            fee: self.fee,
            lock_height: self.lock_height,
            excess_sig: self.excess_sig@,
        }
    }
}

impl Clone for TransactionKernel {
    fn clone(&self) -> (r: Self)
        ensures
            r@ == self@,
    {
        let r = TransactionKernel {
            features: self.features,
            fee: self.fee,
            lock_height: self.lock_height,
            excess_sig: clone_bytes(&self.excess_sig),
        };
        proof {
            assert(r@ == self@);
        }
        r
    }
}

/// A transaction: input commitments, outputs and kernels.
pub struct Transaction {
    /// The commitments of the outputs being spent.
    pub inputs: Vec<Vec<u8>>,
    /// The outputs being created.
    pub outputs: Vec<TransactionOutput>,
    /// The kernels; the first carries the identifying excess signature.
    pub kernels: Vec<TransactionKernel>,
    /// The global offset scalar.
    pub offset: Vec<u8>,
}

/// Mathematical model of a transaction.
pub struct TransactionV {
    /// The input commitments.
    pub inputs: Seq<Seq<u8>>,
    /// The output models.
    pub outputs: Seq<TransactionOutputV>,
    /// The kernel models.
    pub kernels: Seq<TransactionKernelV>,
    /// The offset bytes.
    pub offset: Seq<u8>,
}

impl View for Transaction {
    type V = TransactionV;

    open spec fn view(&self) -> TransactionV {
        TransactionV {
            inputs: self.inputs@.map_values(|c: Vec<u8>| c@),
            outputs: self.outputs@.map_values(|o: TransactionOutput| o@),
            kernels: self.kernels@.map_values(|k: TransactionKernel| k@),
            offset: self.offset@,
        }
    }
}

impl Transaction {
    /// The excess signature of the first kernel: the transaction's identity
    /// within base-node queries.
    pub fn first_kernel_excess_sig(&self) -> (r: Option<&Vec<u8>>)
        ensures
            self@.kernels.len() == 0 <==> r is None,
            r matches Some(s) ==> self@.kernels.len() > 0 && s@ == self@.kernels[0].excess_sig,
    {
        if self.kernels.len() == 0 {
            None
        } else {
            Some(&self.kernels[0].excess_sig)
        }
    }
}

/// The sender's half of an in-progress interactive transaction; a plain
/// record of the scalars and terms fixed so far.
pub struct SenderTransactionProtocol {
    /// The wallet-scope transaction identifier.
    pub tx_id: u64,
    /// The amount being paid to the recipient.
    pub amount: u64,
    /// The fee rate the sender chose.
    pub fee_per_gram: u64,
    /// The total fee the sender will pay.
    pub fee: u64,
    /// The earliest height the transaction may be mined at.
    pub lock_height: u64,
    /// The global offset scalar.
    pub offset: Vec<u8>,
    /// The sender's private nonce.
    pub private_nonce: Vec<u8>,
    /// The free-text message attached to the transaction.
    pub message: String,
    /// The script the recipient's output will carry.
    pub recipient_script: TariScript,
    /// The change output the sender keeps, when one is needed.
    pub change_output: Option<UnblindedOutput>,
    /// The outputs being spent.
    pub inputs: Vec<crate::output::DbUnblindedOutput>,
}

impl SenderTransactionProtocol {
    /// The transaction identifier this protocol run is for.
    pub fn get_tx_id(&self) -> (r: u64)
        ensures
            r == self.tx_id,
    {
        self.tx_id
    }

    /// The fee this transaction pays.
    pub fn get_fee_amount(&self) -> (r: u64)
        ensures
            r == self.fee,
    {
        self.fee
    }

    /// The change output, when the build produced one.
    pub fn get_change_unblinded_output(&self) -> (r: Option<&UnblindedOutput>)
        ensures
            r is Some <==> self.change_output is Some,
            r matches Some(o) ==> (self.change_output matches Some(c) && o@ == c@),
    {
        match &self.change_output {
            Some(o) => Some(o),
            None => None,
        }
    }
}

/// The data of a single-round sender message: everything the receiver needs
/// to build its output.
pub struct SingleRoundSenderData {
    /// The wallet-scope transaction identifier.
    pub tx_id: u64,
    /// The amount being paid.
    pub amount: u64,
    /// The script the output will carry.
    pub script: TariScript,
    /// The features the output will carry.
    pub features: crate::output::OutputFeatures,
    /// The sender's per-output offset public key.
    pub sender_offset_public_key: Vec<u8>,
    /// The sender's public commitment nonce for the partial signature.
    pub public_commitment_nonce: Vec<u8>,
    /// The free-text message attached to the transaction.
    pub message: String,
}

/// A message from a sender opening the interactive protocol.
pub enum TransactionSenderMessage {
    /// No message.
    NoMessage,
    /// A single-round message with everything the receiver needs.
    Single(SingleRoundSenderData),
    /// A round in a multi-round exchange, not carrying the data.
    Multiple,
}

impl TransactionSenderMessage {
    /// The single-round data, when this is a single-round message.
    pub fn single(&self) -> (r: Option<&SingleRoundSenderData>)
        ensures
            r is Some <==> self is Single,
            r matches Some(d) ==> (self matches TransactionSenderMessage::Single(s) && d == s),
    {
        match self {
            TransactionSenderMessage::Single(d) => Some(d),
            _ => None,
        }
    }
}

/// The receiver's half of an interactive transaction: its output and the
/// partial signature material it returns to the sender.
pub struct ReceiverTransactionProtocol {
    /// The wallet-scope transaction identifier.
    pub tx_id: u64,
    /// The amount being received.
    pub amount: u64,
    /// The receiver's output.
    pub output: UnblindedOutput,
    /// The receiver's private nonce.
    pub private_nonce: Vec<u8>,
}

/// Mathematical model of a receiver protocol.
pub struct ReceiverProtocolV {
    /// The transaction identifier.
    pub tx_id: u64,
    /// The amount being received.
    pub amount: u64,
    /// The output's model.
    pub output: UnblindedOutputV,
    /// The nonce bytes.
    pub private_nonce: Seq<u8>,
}

impl View for ReceiverTransactionProtocol {
    type V = ReceiverProtocolV;

    open spec fn view(&self) -> ReceiverProtocolV {
        ReceiverProtocolV {
            tx_id: self.tx_id,
            amount: self.amount,
            output: self.output@,
            private_nonce: self.private_nonce@,
        }
    }
}

} // verus!
