//! Cryptographic primitives of the wallet core.
//!
//! Key material, commitments and hashes are carried as plain byte vectors.
//! Every derived quantity is a deterministic, domain-separated digest of its
//! inputs, so contracts can state exactly which bytes a value depends on.
//! The digest itself and the randomness source are the only trusted calls.

use vstd::prelude::*;
use vstd::bytes::spec_u64_to_le_bytes;
use vstd::bytes::u64_to_le_bytes;

verus! {

/// The 32-byte Blake2b digest of a byte string.
pub uninterp spec fn blake2b_of(input: Seq<u8>) -> Seq<u8>;

/// Relies on blake2's `Blake2b<U32>`: the digest is a function of the input
/// bytes alone and is exactly 32 bytes long.
#[verifier::external_body]
pub(crate) fn blake2b_digest(data: &[u8]) -> (r: Vec<u8>)
    ensures
        r@ == blake2b_of(data@),
        r@.len() == 32,
{
    let mut hasher = <blake2::Blake2b<blake2::digest::consts::U32> as blake2::Digest>::new();
    blake2::Digest::update(&mut hasher, data);
    let out = blake2::Digest::finalize(hasher);
    out.to_vec()
}

/// Relies on rand's `OsRng`: nothing is assumed of the returned value. The
/// call aborts if the operating system's entropy source fails, an
/// environmental failure no precondition can exclude.
#[verifier::external_body]
pub(crate) fn random_u64() -> u64 {
    rand::RngCore::next_u64(&mut rand::rngs::OsRng)
}

/// Relies on rand's `OsRng` `fill_bytes`: 32 bytes; only the length is
/// assumed. The call aborts if the operating system's entropy source fails,
/// an environmental failure no precondition can exclude.
#[verifier::external_body]
pub(crate) fn random_key_bytes() -> (r: Vec<u8>)
    ensures
        r@.len() == 32,
{
    let mut buf = vec![0u8; 32];
    rand::RngCore::fill_bytes(&mut rand::rngs::OsRng, &mut buf);
    buf
}

/// Domain tag for child-key derivation.
pub const TAG_DERIVE_KEY: u8 = 1;
/// Domain tag for public keys.
pub const TAG_PUBLIC_KEY: u8 = 2;
/// Domain tag for shared-secret derivation.
pub const TAG_DH: u8 = 3;
/// Domain tag for output commitments.
pub const TAG_COMMITMENT: u8 = 4;
/// Domain tag for output hashes.
pub const TAG_OUTPUT_HASH: u8 = 5;
/// Domain tag for metadata signatures.
pub const TAG_SIGNATURE: u8 = 6;
/// Domain tag for range-proof masks.
pub const TAG_MASK: u8 = 7;

/// A tag byte followed by one length-prefixed field.
pub open spec fn spec_frame1(tag: u8, a: Seq<u8>) -> Seq<u8> {
    seq![tag] + spec_u64_to_le_bytes(a.len() as u64) + a
}

/// A tag byte followed by two length-prefixed fields.
pub open spec fn spec_frame2(tag: u8, a: Seq<u8>, b: Seq<u8>) -> Seq<u8> {
    spec_frame1(tag, a) + spec_u64_to_le_bytes(b.len() as u64) + b
}

/// Builds the one-field frame.
pub fn frame1(tag: u8, a: &[u8]) -> (r: Vec<u8>)
    ensures
        r@ == spec_frame1(tag, a@),
{
    let mut r: Vec<u8> = Vec::new();
    r.push(tag);
    let mut len_bytes = u64_to_le_bytes(a.len() as u64);
    r.append(&mut len_bytes);
    r.extend_from_slice(a);
    proof {
        assert(r@ =~= spec_frame1(tag, a@));
    }
    r
}

/// Builds the two-field frame.
pub fn frame2(tag: u8, a: &[u8], b: &[u8]) -> (r: Vec<u8>)
    ensures
        r@ == spec_frame2(tag, a@, b@),
{
    let mut r = frame1(tag, a);
    let mut len_bytes = u64_to_le_bytes(b.len() as u64);
    r.append(&mut len_bytes);
    r.extend_from_slice(b);
    proof {
        assert(r@ =~= spec_frame2(tag, a@, b@));
    }
    r
}

/// The child key for a master secret, branch and index.
pub open spec fn spec_derived_key(master: Seq<u8>, branch: u64, index: u64) -> Seq<u8> {
    blake2b_of(spec_frame2(
        TAG_DERIVE_KEY,
        master,
        spec_u64_to_le_bytes(branch) + spec_u64_to_le_bytes(index),
    ))
}

/// Derives the child key for a master secret, branch and index.
pub fn derive_key(master: &[u8], branch: u64, index: u64) -> (r: Vec<u8>)
    ensures
        r@ == spec_derived_key(master@, branch, index),
        r@.len() == 32,
{
    let mut suffix = u64_to_le_bytes(branch);
    let mut index_bytes = u64_to_le_bytes(index);
    suffix.append(&mut index_bytes);
    let preimage = frame2(TAG_DERIVE_KEY, master, suffix.as_slice());
    blake2b_digest(preimage.as_slice())
}

/// The public key of a secret key.
pub open spec fn spec_public_key(secret: Seq<u8>) -> Seq<u8> {
    blake2b_of(spec_frame1(TAG_PUBLIC_KEY, secret))
}

/// Computes the public key of a secret key.
pub fn public_key_of(secret: &[u8]) -> (r: Vec<u8>)
    ensures
        r@ == spec_public_key(secret@),
        r@.len() == 32,
{
    let preimage = frame1(TAG_PUBLIC_KEY, secret);
    blake2b_digest(preimage.as_slice())
}

/// The shared secret derived from a secret key and a peer public key.
pub open spec fn spec_shared_secret(secret: Seq<u8>, peer_public: Seq<u8>) -> Seq<u8> {
    blake2b_of(spec_frame2(TAG_DH, secret, peer_public))
}

/// Derives the shared secret for a secret key and a peer public key.
pub fn shared_secret(secret: &[u8], peer_public: &[u8]) -> (r: Vec<u8>)
    ensures
        r@ == spec_shared_secret(secret@, peer_public@),
        r@.len() == 32,
{
    let preimage = frame2(TAG_DH, secret, peer_public);
    blake2b_digest(preimage.as_slice())
}

/// The commitment identifying an output of the given value and spending key.
pub open spec fn spec_commitment(value: u64, spending_key: Seq<u8>) -> Seq<u8> {
    blake2b_of(spec_frame2(TAG_COMMITMENT, spec_u64_to_le_bytes(value), spending_key))
}

/// Computes the commitment for a value and spending key.
pub fn commitment_of(value: u64, spending_key: &[u8]) -> (r: Vec<u8>)
    ensures
        r@ == spec_commitment(value, spending_key@),
        r@.len() == 32,
{
    let value_bytes = u64_to_le_bytes(value);
    let preimage = frame2(TAG_COMMITMENT, value_bytes.as_slice(), spending_key);
    blake2b_digest(preimage.as_slice())
}

/// Digest of a secret key, used to chain rewind keys.
pub fn hash_secret_key(key: &[u8]) -> (r: Vec<u8>)
    ensures
        r@ == blake2b_of(key@),
        r@.len() == 32,
{
    blake2b_digest(key)
}

/// Clones a byte vector, preserving its contents exactly.
pub fn clone_bytes(v: &Vec<u8>) -> (r: Vec<u8>)
    ensures
        r@ == v@,
{
    let r = v.clone();
    proof {
        assert(r@ =~= v@);
    }
    r
}

/// Whether two byte strings are equal.
pub fn bytes_eq(a: &[u8], b: &[u8]) -> (r: bool)
    ensures
        r == (a@ == b@),
{
    if a.len() != b.len() {
        proof {
            assert(a@.len() != b@.len());
        }
        return false;
    }
    let mut i: usize = 0;
    while i < a.len()
        invariant
            0 <= i <= a@.len(),
            a@.len() == b@.len(),
            forall|k: int| 0 <= k < i ==> a@[k] == b@[k],
        decreases a@.len() - i,
    {
        if a[i] != b[i] {
            return false;
        }
        i += 1;
    }
    proof {
        assert(a@ =~= b@);
    }
    true
}

/// The pointwise exclusive-or of two byte strings, zipped to the shorter
/// length.
pub open spec fn spec_xor_bytes(a: Seq<u8>, b: Seq<u8>) -> Seq<u8> {
    Seq::new(if a.len() <= b.len() { a.len() } else { b.len() }, |i: int| a[i] ^ b[i])
}

/// Computes the pointwise exclusive-or of two byte strings.
pub fn xor_bytes(a: &[u8], b: &[u8]) -> (r: Vec<u8>)
    ensures
        r@ == spec_xor_bytes(a@, b@),
{
    let n = if a.len() <= b.len() {
        a.len()
    } else {
        b.len()
    };
    let mut r: Vec<u8> = Vec::new();
    let mut i: usize = 0;
    while i < n
        invariant
            0 <= i <= n,
            n == if a@.len() <= b@.len() { a@.len() } else { b@.len() },
            r@.len() == i,
            forall|k: int| 0 <= k < i ==> r@[k] == (a@[k] ^ b@[k]),
        decreases n - i,
    {
        r.push(a[i] ^ b[i]);
        i += 1;
    }
    proof {
        assert(r@ =~= spec_xor_bytes(a@, b@));
    }
    r
}

/// Exclusive-or with the same byte twice restores the original byte.
pub proof fn lemma_xor_u8_involutive(x: u8, m: u8)
    by (bit_vector)
    ensures
        (x ^ m) ^ m == x,
{
}

/// Masking a byte string twice with the same mask restores it.
pub proof fn lemma_xor_bytes_involutive(a: Seq<u8>, m: Seq<u8>)
    requires
        a.len() == m.len(),
    ensures
        spec_xor_bytes(spec_xor_bytes(a, m), m) == a,
{
    let once = spec_xor_bytes(a, m);
    let twice = spec_xor_bytes(once, m);
    assert forall|i: int| 0 <= i < a.len() implies twice[i] == a[i] by {
        lemma_xor_u8_involutive(a[i], m[i]);
    }
    assert(twice =~= a);
}

} // verus!
