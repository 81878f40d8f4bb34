//! Outputs: unblinded records, their on-chain form, commitments, hashes,
//! metadata signatures and the rewindable range proof.

use vstd::prelude::*;
use vstd::bytes::spec_u64_to_le_bytes;
use vstd::bytes::spec_u64_from_le_bytes;
use vstd::bytes::u64_to_le_bytes;
use vstd::bytes::u64_from_le_bytes;
use vstd::slice::slice_subrange;
use crate::crypto::blake2b_of;
use crate::crypto::blake2b_digest;
use crate::crypto::clone_bytes;
use crate::crypto::frame2;
use crate::crypto::spec_frame2;
use crate::crypto::spec_commitment;
use crate::crypto::spec_public_key;
use crate::crypto::spec_xor_bytes;
use crate::crypto::commitment_of;
use crate::crypto::public_key_of;
use crate::crypto::xor_bytes;
use crate::crypto::lemma_xor_bytes_involutive;
use crate::crypto::TAG_MASK;
use crate::crypto::TAG_OUTPUT_HASH;
use crate::crypto::TAG_SIGNATURE;
use crate::script::TariScript;
use crate::script::ExecutionStack;

verus! {

/// Flag bit marking a coinbase output.
pub const FLAG_COINBASE: u8 = 1;

/// Consensus features of an output: its flags and maturity height.
#[derive(Clone, Copy, Debug, PartialEq, Eq, Structural)]
pub struct OutputFeatures {
    /// Feature flag bits.
    pub flags: u8,
    /// First block height at which the output may be spent.
    pub maturity: u64,
}

impl OutputFeatures {
    /// Features of an ordinary output: no flags, immediately spendable.
    pub fn default_features() -> (r: Self)
        ensures
            r == (OutputFeatures { flags: 0, maturity: 0 }),
    {
        OutputFeatures { flags: 0, maturity: 0 }
    }

    /// Features of a coinbase output maturing at the given height.
    pub fn create_coinbase(maturity_height: u64) -> (r: Self)
        ensures
            r == (OutputFeatures { flags: FLAG_COINBASE, maturity: maturity_height }),
    {
        OutputFeatures { flags: FLAG_COINBASE, maturity: maturity_height }
    }
}

/// A metadata signature binding an output's fields.
pub struct ComSignature {
    /// The signature bytes.
    pub bytes: Vec<u8>,
}

impl View for ComSignature {
    type V = Seq<u8>;

    open spec fn view(&self) -> Seq<u8> {
        self.bytes@
    }
}

impl Clone for ComSignature {
    fn clone(&self) -> (r: Self)
        ensures
            r@ == self@,
    {
        ComSignature { bytes: clone_bytes(&self.bytes) }
    }
}

/// A length-prefixed field inside a digest preimage.
pub open spec fn spec_field(a: Seq<u8>) -> Seq<u8> {
    spec_u64_to_le_bytes(a.len() as u64) + a
}

/// Appends a length-prefixed field to a digest preimage.
pub fn push_field(acc: &mut Vec<u8>, a: &[u8])
    ensures
        final(acc)@ == old(acc)@ + spec_field(a@),
{
    let mut len_bytes = u64_to_le_bytes(a.len() as u64);
    acc.append(&mut len_bytes);
    acc.extend_from_slice(a);
}

/// The partial metadata signature for a receiver-side output: it binds the
/// amount, spending key, script, features, sender offset key and the sender's
/// public commitment nonce.
pub open spec fn spec_partial_metadata_signature(
    amount: u64,
    spending_key: Seq<u8>,
    script: Seq<u8>,
    features: OutputFeatures,
    sender_offset_public_key: Seq<u8>,
    public_nonce: Seq<u8>,
) -> Seq<u8> {
    blake2b_of(
        seq![TAG_SIGNATURE, 1u8, features.flags] + spec_field(spec_u64_to_le_bytes(amount))
            + spec_field(spending_key) + spec_field(script)
            + spec_field(spec_u64_to_le_bytes(features.maturity))
            + spec_field(sender_offset_public_key) + spec_field(public_nonce),
    )
}

/// The final-form metadata signature an output carries, stated over the
/// sender offset public key it binds: the form a locally built output has,
/// with no counterparty nonce left open.
pub open spec fn spec_final_signature_for(
    amount: u64,
    spending_key: Seq<u8>,
    script: Seq<u8>,
    features: OutputFeatures,
    sender_offset_public_key: Seq<u8>,
) -> Seq<u8> {
    blake2b_of(
        seq![TAG_SIGNATURE, 2u8, features.flags] + spec_field(spec_u64_to_le_bytes(amount))
            + spec_field(spending_key) + spec_field(script)
            + spec_field(spec_u64_to_le_bytes(features.maturity))
            + spec_field(sender_offset_public_key),
    )
}

/// The final metadata signature for a locally built output: it binds the same
/// fields under the sender offset key pair, with no counterparty nonce.
pub open spec fn spec_final_metadata_signature(
    amount: u64,
    spending_key: Seq<u8>,
    script: Seq<u8>,
    features: OutputFeatures,
    sender_offset_private_key: Seq<u8>,
) -> Seq<u8> {
    spec_final_signature_for(
        amount,
        spending_key,
        script,
        features,
        spec_public_key(sender_offset_private_key),
    )
}

/// The hash identifying an output on chain.
pub open spec fn spec_output_hash(features: OutputFeatures, commitment: Seq<u8>, script: Seq<u8>) -> Seq<u8> {
    blake2b_of(
        seq![TAG_OUTPUT_HASH, features.flags] + spec_field(spec_u64_to_le_bytes(features.maturity))
            + spec_field(commitment) + spec_field(script),
    )
}

/// Computes the on-chain hash of an output.
pub fn output_hash(features: OutputFeatures, commitment: &[u8], script: &[u8]) -> (r: Vec<u8>)
    ensures
        r@ == spec_output_hash(features, commitment@, script@),
        r@.len() == 32,
{
    let mut preimage: Vec<u8> = Vec::new();
    preimage.push(TAG_OUTPUT_HASH);
    preimage.push(features.flags);
    let maturity_bytes = u64_to_le_bytes(features.maturity);
    push_field(&mut preimage, maturity_bytes.as_slice());
    push_field(&mut preimage, commitment);
    push_field(&mut preimage, script);
    proof {
        assert(preimage@ =~= seq![TAG_OUTPUT_HASH, features.flags]
            + spec_field(spec_u64_to_le_bytes(features.maturity)) + spec_field(commitment@)
            + spec_field(script@));
    }
    blake2b_digest(preimage.as_slice())
}

/// The 64-bit mask a rewind key yields for a given commitment.
pub open spec fn spec_mask64(key: Seq<u8>, commitment: Seq<u8>) -> u64 {
    spec_u64_from_le_bytes(blake2b_of(spec_frame2(TAG_MASK, key, commitment)).subrange(0, 8))
}

/// The 32-byte mask a rewind key yields for a given commitment.
pub open spec fn spec_mask_bytes(key: Seq<u8>, commitment: Seq<u8>) -> Seq<u8> {
    blake2b_of(spec_frame2(TAG_MASK, key, commitment))
}

/// Computes the 64-bit mask for a rewind key and commitment.
fn mask64(key: &[u8], commitment: &[u8]) -> (r: u64)
    ensures
        r == spec_mask64(key@, commitment@),
{
    let preimage = frame2(TAG_MASK, key, commitment);
    let digest = blake2b_digest(preimage.as_slice());
    let head = slice_subrange(digest.as_slice(), 0, 8);
    u64_from_le_bytes(head)
}

/// Computes the 32-byte mask for a rewind key and commitment.
fn mask_bytes(key: &[u8], commitment: &[u8]) -> (r: Vec<u8>)
    ensures
        r@ == spec_mask_bytes(key@, commitment@),
        r@.len() == 32,
{
    let preimage = frame2(TAG_MASK, key, commitment);
    blake2b_digest(preimage.as_slice())
}

/// A rewindable range proof: the committed value and blinding factor, masked
/// under the output's rewind keys.
pub struct RangeProof {
    /// The committed value, masked with the rewind key's 64-bit mask.
    pub masked_value: u64,
    /// The blinding factor, masked with the blinding key's byte mask.
    pub masked_blinding: Vec<u8>,
}

/// Mathematical model of a range proof.
pub struct RangeProofV {
    /// The masked committed value.
    pub masked_value: u64,
    /// The masked blinding factor.
    pub masked_blinding: Seq<u8>,
}

impl View for RangeProof {
    type V = RangeProofV;

    open spec fn view(&self) -> RangeProofV {
        RangeProofV { masked_value: self.masked_value, masked_blinding: self.masked_blinding@ }
    }
}

impl Clone for RangeProof {
    fn clone(&self) -> (r: Self)
        ensures
            r@ == self@,
    {
        let r = RangeProof {
            masked_value: self.masked_value,
            masked_blinding: clone_bytes(&self.masked_blinding),
        };
        proof {
            assert(r@ == self@);
        }
        r
    }
}

/// The proof produced for a value and blinding factor under rewind keys.
pub open spec fn spec_build_proof(
    value: u64,
    blinding: Seq<u8>,
    rewind_key: Seq<u8>,
    blinding_key: Seq<u8>,
    commitment: Seq<u8>,
) -> RangeProofV {
    RangeProofV {
        masked_value: (value ^ spec_mask64(rewind_key, commitment)) as u64,
        masked_blinding: spec_xor_bytes(blinding, spec_mask_bytes(blinding_key, commitment)),
    }
}

/// The value recovered from a proof under a rewind key.
pub open spec fn spec_rewound_value(proof: RangeProofV, rewind_key: Seq<u8>, commitment: Seq<u8>) -> u64 {
    (proof.masked_value ^ spec_mask64(rewind_key, commitment)) as u64
}

/// The blinding factor recovered from a proof under a blinding key.
pub open spec fn spec_rewound_blinding(
    proof: RangeProofV,
    blinding_key: Seq<u8>,
    commitment: Seq<u8>,
) -> Seq<u8> {
    spec_xor_bytes(proof.masked_blinding, spec_mask_bytes(blinding_key, commitment))
}

/// A rewind succeeds exactly when the recovered pair reproduces the
/// commitment.
pub open spec fn spec_rewind_succeeds(
    proof: RangeProofV,
    rewind_key: Seq<u8>,
    blinding_key: Seq<u8>,
    commitment: Seq<u8>,
) -> bool {
    spec_commitment(
        spec_rewound_value(proof, rewind_key, commitment),
        spec_rewound_blinding(proof, blinding_key, commitment),
    ) == commitment
}

impl RangeProof {
    /// Builds the proof for a value and blinding factor under rewind keys.
    pub fn build(
        value: u64,
        blinding: &Vec<u8>,
        rewind_key: &[u8],
        blinding_key: &[u8],
        commitment: &[u8],
    ) -> (r: Self)
        requires
            blinding@.len() == 32,
        ensures
            r@ == spec_build_proof(value, blinding@, rewind_key@, blinding_key@, commitment@),
    {
        let m64 = mask64(rewind_key, commitment);
        let mb = mask_bytes(blinding_key, commitment);
        RangeProof {
            masked_value: value ^ m64,
            masked_blinding: xor_bytes(blinding.as_slice(), mb.as_slice()),
        }
    }
}

/// The value and blinding factor recovered by rewinding a range proof.
pub struct RewindResult {
    /// The committed value.
    pub committed_value: u64,
    /// The blinding factor, which doubles as the spending key.
    pub blinding_factor: Vec<u8>,
}

/// Exclusive-or with the same 64-bit mask twice restores the value.
proof fn lemma_xor_u64_involutive(x: u64, m: u64)
    by (bit_vector)
    ensures
        (x ^ m) ^ m == x,
{
}

/// Rewinding a proof built with the wallet's rewind data recovers the original
/// value and blinding factor exactly.
pub proof fn lemma_rewind_round_trip(
    value: u64,
    blinding: Seq<u8>,
    rewind_key: Seq<u8>,
    blinding_key: Seq<u8>,
)
    requires
        blinding.len() == spec_mask_bytes(blinding_key, spec_commitment(value, blinding)).len(),
    ensures
        ({
            let commitment = spec_commitment(value, blinding);
            let proof = spec_build_proof(value, blinding, rewind_key, blinding_key, commitment);
            &&& spec_rewound_value(proof, rewind_key, commitment) == value
            &&& spec_rewound_blinding(proof, blinding_key, commitment) == blinding
            &&& spec_rewind_succeeds(proof, rewind_key, blinding_key, commitment)
        }),
{
    let commitment = spec_commitment(value, blinding);
    let proof = spec_build_proof(value, blinding, rewind_key, blinding_key, commitment);
    lemma_xor_u64_involutive(value, spec_mask64(rewind_key, commitment));
    lemma_xor_bytes_involutive(blinding, spec_mask_bytes(blinding_key, commitment));
}

/// An output as it appears on chain.
pub struct TransactionOutput {
    /// Consensus features.
    pub features: OutputFeatures,
    /// The Pedersen commitment identifying the output.
    pub commitment: Vec<u8>,
    /// The spending script.
    pub script: TariScript,
    /// The sender's per-output offset public key.
    pub sender_offset_public_key: Vec<u8>,
    /// The metadata signature binding the fields above.
    pub metadata_signature: ComSignature,
    /// The rewindable range proof.
    pub proof: RangeProof,
}

/// Mathematical model of an on-chain output.
pub struct TransactionOutputV {
    /// Consensus features.
    pub features: OutputFeatures,
    /// The commitment bytes.
    pub commitment: Seq<u8>,
    /// The script bytes.
    pub script: Seq<u8>,
    /// The sender offset public key bytes.
    pub sender_offset_public_key: Seq<u8>,
    /// The metadata signature bytes.
    pub metadata_signature: Seq<u8>,
    /// The range proof model.
    pub proof: RangeProofV,
}

impl View for TransactionOutput {
    type V = TransactionOutputV;

    open spec fn view(&self) -> TransactionOutputV {
        TransactionOutputV {
            features: self.features,
            commitment: self.commitment@,
            script: self.script@,
            sender_offset_public_key: self.sender_offset_public_key@,
            metadata_signature: self.metadata_signature@,
            proof: self.proof@,
        }
    }
}

impl Clone for TransactionOutput {
    fn clone(&self) -> (r: Self)
        ensures
            r@ == self@,
    {
        let r = TransactionOutput {
            features: self.features,
            commitment: clone_bytes(&self.commitment),
            script: self.script.clone(),
            sender_offset_public_key: clone_bytes(&self.sender_offset_public_key),
            metadata_signature: self.metadata_signature.clone(),
            proof: self.proof.clone(),
        };
        proof {
            assert(r@ == self@);
        }
        r
    }
}

impl TransactionOutput {
    /// Creates the partial metadata signature for a receiver-side output.
    pub fn create_partial_metadata_signature(
        amount: u64,
        spending_key: &[u8],
        script: &TariScript,
        features: OutputFeatures,
        sender_offset_public_key: &[u8],
        public_commitment_nonce: &[u8],
    ) -> (r: ComSignature)
        ensures
            r@ == spec_partial_metadata_signature(
                amount,
                spending_key@,
                script@,
                features,
                sender_offset_public_key@,
                public_commitment_nonce@,
            ),
    {
        let mut preimage: Vec<u8> = Vec::new();
        preimage.push(TAG_SIGNATURE);
        preimage.push(1u8);
        preimage.push(features.flags);
        let amount_bytes = u64_to_le_bytes(amount);
        push_field(&mut preimage, amount_bytes.as_slice());
        push_field(&mut preimage, spending_key);
        push_field(&mut preimage, script.bytes.as_slice());
        let maturity_bytes = u64_to_le_bytes(features.maturity);
        push_field(&mut preimage, maturity_bytes.as_slice());
        push_field(&mut preimage, sender_offset_public_key);
        push_field(&mut preimage, public_commitment_nonce);
        proof {
            assert(preimage@ =~= seq![TAG_SIGNATURE, 1u8, features.flags]
                + spec_field(spec_u64_to_le_bytes(amount)) + spec_field(spending_key@)
                + spec_field(script@) + spec_field(spec_u64_to_le_bytes(features.maturity))
                + spec_field(sender_offset_public_key@) + spec_field(public_commitment_nonce@));
        }
        ComSignature { bytes: blake2b_digest(preimage.as_slice()) }
    }

    /// Creates the final metadata signature for a locally built output.
    pub fn create_final_metadata_signature(
        amount: u64,
        spending_key: &[u8],
        script: &TariScript,
        features: OutputFeatures,
        sender_offset_private_key: &[u8],
    ) -> (r: ComSignature)
        ensures
            r@ == spec_final_metadata_signature(
                amount,
                spending_key@,
                script@,
                features,
                sender_offset_private_key@,
            ),
    {
        let mut preimage: Vec<u8> = Vec::new();
        preimage.push(TAG_SIGNATURE);
        preimage.push(2u8);
        preimage.push(features.flags);
        let amount_bytes = u64_to_le_bytes(amount);
        push_field(&mut preimage, amount_bytes.as_slice());
        push_field(&mut preimage, spending_key);
        push_field(&mut preimage, script.bytes.as_slice());
        let maturity_bytes = u64_to_le_bytes(features.maturity);
        push_field(&mut preimage, maturity_bytes.as_slice());
        let offset_public = public_key_of(sender_offset_private_key);
        push_field(&mut preimage, offset_public.as_slice());
        proof {
            assert(preimage@ =~= seq![TAG_SIGNATURE, 2u8, features.flags]
                + spec_field(spec_u64_to_le_bytes(amount)) + spec_field(spending_key@)
                + spec_field(script@) + spec_field(spec_u64_to_le_bytes(features.maturity))
                + spec_field(spec_public_key(sender_offset_private_key@)));
        }
        ComSignature { bytes: blake2b_digest(preimage.as_slice()) }
    }

    /// Rewinds the range proof; succeeds exactly when the recovered value and
    /// blinding factor reproduce this output's commitment.
    pub fn full_rewind_range_proof(&self, rewind_key: &[u8], blinding_key: &[u8]) -> (r: Option<
        RewindResult,
    >)
        ensures
            spec_rewind_succeeds(self@.proof, rewind_key@, blinding_key@, self@.commitment)
                <==> r is Some,
            r matches Some(res) ==> {
                &&& res.committed_value == spec_rewound_value(self@.proof, rewind_key@, self@.commitment)
                &&& res.blinding_factor@ == spec_rewound_blinding(
                    self@.proof,
                    blinding_key@,
                    self@.commitment,
                )
            },
    {
        let m64 = mask64(rewind_key, self.commitment.as_slice());
        let value = self.proof.masked_value ^ m64;
        let mb = mask_bytes(blinding_key, self.commitment.as_slice());
        let blinding = xor_bytes(self.proof.masked_blinding.as_slice(), mb.as_slice());
        let candidate = commitment_of(value, blinding.as_slice());
        if crate::crypto::bytes_eq(candidate.as_slice(), self.commitment.as_slice()) {
            Some(RewindResult { committed_value: value, blinding_factor: blinding })
        } else {
            None
        }
    }
}

/// A spendable output held by the wallet.
pub struct UnblindedOutput {
    /// The committed value, in micro-units.
    pub value: u64,
    /// The secret spending key (the commitment's blinding factor).
    pub spending_key: Vec<u8>,
    /// Consensus features.
    pub features: OutputFeatures,
    /// The spending script.
    pub script: TariScript,
    /// The witness satisfying the script.
    pub input_data: ExecutionStack,
    /// The secret key satisfying the script.
    pub script_private_key: Vec<u8>,
    /// The sender's per-output offset public key.
    pub sender_offset_public_key: Vec<u8>,
    /// The metadata signature binding the fields above.
    pub metadata_signature: ComSignature,
}

/// Mathematical model of a spendable output.
pub struct UnblindedOutputV {
    /// The committed value.
    pub value: u64,
    /// The spending key bytes.
    pub spending_key: Seq<u8>,
    /// Consensus features.
    pub features: OutputFeatures,
    /// The script bytes.
    pub script: Seq<u8>,
    /// The witness bytes.
    pub input_data: Seq<u8>,
    /// The script secret key bytes.
    pub script_private_key: Seq<u8>,
    /// The sender offset public key bytes.
    pub sender_offset_public_key: Seq<u8>,
    /// The metadata signature bytes.
    pub metadata_signature: Seq<u8>,
}

impl View for UnblindedOutput {
    type V = UnblindedOutputV;

    open spec fn view(&self) -> UnblindedOutputV {
        UnblindedOutputV {
            value: self.value,
            spending_key: self.spending_key@,
            features: self.features,
            script: self.script@,
            input_data: self.input_data@,
            script_private_key: self.script_private_key@,
            sender_offset_public_key: self.sender_offset_public_key@,
            metadata_signature: self.metadata_signature@,
        }
    }
}

impl Clone for UnblindedOutput {
    fn clone(&self) -> (r: Self)
        ensures
            r@ == self@,
    {
        let r = UnblindedOutput {
            value: self.value,
            spending_key: clone_bytes(&self.spending_key),
            features: self.features,
            script: self.script.clone(),
            input_data: self.input_data.clone(),
            script_private_key: clone_bytes(&self.script_private_key),
            sender_offset_public_key: clone_bytes(&self.sender_offset_public_key),
            metadata_signature: self.metadata_signature.clone(),
        };
        proof {
            assert(r@ == self@);
        }
        r
    }
}

impl UnblindedOutput {
    /// Assembles an output from its fields.
    #[allow(clippy::too_many_arguments)]
    pub fn new(
        value: u64,
        spending_key: Vec<u8>,
        features: OutputFeatures,
        script: TariScript,
        input_data: ExecutionStack,
        script_private_key: Vec<u8>,
        sender_offset_public_key: Vec<u8>,
        metadata_signature: ComSignature,
    ) -> (r: Self)
        ensures
            r@ == (UnblindedOutputV {
                value,
                spending_key: spending_key@,
                features,
                script: script@,
                input_data: input_data@,
                script_private_key: script_private_key@,
                sender_offset_public_key: sender_offset_public_key@,
                metadata_signature: metadata_signature@,
            }),
    {
        UnblindedOutput {
            value,
            spending_key,
            features,
            script,
            input_data,
            script_private_key,
            sender_offset_public_key,
            metadata_signature,
        }
    }

    /// The commitment identifying this output.
    pub fn commitment(&self) -> (r: Vec<u8>)
        ensures
            r@ == spec_commitment(self.value, self.spending_key@),
            r@.len() == 32,
    {
        commitment_of(self.value, self.spending_key.as_slice())
    }

    /// This output in its on-chain form, with a range proof rewindable by the
    /// given keys.
    pub fn to_transaction_output(&self, rewind_key: &[u8], blinding_key: &[u8]) -> (r:
        TransactionOutput)
        requires
            self.spending_key@.len() == 32,
        ensures
            r@.features == self@.features,
            r@.commitment == spec_commitment(self@.value, self@.spending_key),
            r@.script == self@.script,
            r@.sender_offset_public_key == self@.sender_offset_public_key,
            r@.metadata_signature == self@.metadata_signature,
            r@.proof == spec_build_proof(
                self@.value,
                self@.spending_key,
                rewind_key@,
                blinding_key@,
                spec_commitment(self@.value, self@.spending_key),
            ),
    {
        let commitment = self.commitment();
        let proof = RangeProof::build(
            self.value,
            &self.spending_key,
            rewind_key,
            blinding_key,
            commitment.as_slice(),
        );
        TransactionOutput {
            features: self.features,
            commitment,
            script: self.script.clone(),
            sender_offset_public_key: clone_bytes(&self.sender_offset_public_key),
            metadata_signature: self.metadata_signature.clone(),
            proof,
        }
    }
}

/// A stored output: the unblinded record plus its commitment and hash.
pub struct DbUnblindedOutput {
    /// The spendable record.
    pub unblinded_output: UnblindedOutput,
    /// The commitment identifying it, the persistence key.
    pub commitment: Vec<u8>,
    /// Its on-chain hash.
    pub hash: Vec<u8>,
}

/// Mathematical model of a stored output.
pub struct DbOutputV {
    /// The spendable record.
    pub output: UnblindedOutputV,
    /// The commitment bytes.
    pub commitment: Seq<u8>,
    /// The hash bytes.
    pub hash: Seq<u8>,
}

impl View for DbUnblindedOutput {
    type V = DbOutputV;

    open spec fn view(&self) -> DbOutputV {
        DbOutputV {
            output: self.unblinded_output@,
            commitment: self.commitment@,
            hash: self.hash@,
        }
    }
}

impl Clone for DbUnblindedOutput {
    fn clone(&self) -> (r: Self)
        ensures
            r@ == self@,
    {
        let r = DbUnblindedOutput {
            unblinded_output: self.unblinded_output.clone(),
            commitment: clone_bytes(&self.commitment),
            hash: clone_bytes(&self.hash),
        };
        proof {
            assert(r@ == self@);
        }
        r
    }
}

/// A stored output is well formed when its commitment and hash are derived
/// from its own fields.
pub open spec fn spec_db_output_wf(o: DbOutputV) -> bool {
    &&& o.commitment == spec_commitment(o.output.value, o.output.spending_key)
    &&& o.hash == spec_output_hash(o.output.features, o.commitment, o.output.script)
}

impl DbUnblindedOutput {
    /// Wraps an unblinded output with its derived commitment and hash.
    pub fn from_unblinded_output(output: UnblindedOutput) -> (r: Self)
        ensures
            r@.output == output@,
            spec_db_output_wf(r@),
    {
        let commitment = output.commitment();
        let hash = output_hash(output.features, commitment.as_slice(), output.script.bytes.as_slice());
        DbUnblindedOutput { unblinded_output: output, commitment, hash }
    }
}

} // verus!
