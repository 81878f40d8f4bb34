//! Deterministic hierarchical key derivation from a master secret.
//!
//! Every key is a pure function of the master secret, a branch and an index.
//! Non-coinbase branches consume a strictly increasing counter; coinbase
//! branches use the block height as the index.

use vstd::prelude::*;
use crate::crypto::derive_key;
use crate::crypto::public_key_of;
use crate::crypto::spec_derived_key;
use crate::crypto::spec_public_key;
use crate::crypto::clone_bytes;

verus! {

/// Branch of ordinary spending keys.
pub const BRANCH_SPEND: u64 = 1;
/// Branch of ordinary script keys.
pub const BRANCH_SCRIPT: u64 = 2;
/// Branch of coinbase spending keys, indexed by block height.
pub const BRANCH_COINBASE_SPEND: u64 = 3;
/// Branch of coinbase script keys, indexed by block height.
pub const BRANCH_COINBASE_SCRIPT: u64 = 4;
/// Branch of the wallet's rewind key.
pub const BRANCH_REWIND: u64 = 5;
/// Branch of the wallet's blinding key.
pub const BRANCH_BLINDING: u64 = 6;

/// The wallet's rewind key pair, constant for its lifetime.
pub struct RewindData {
    /// The key recovering committed values.
    pub rewind_key: Vec<u8>,
    /// The key recovering blinding factors.
    pub blinding_key: Vec<u8>,
}

impl Clone for RewindData {
    fn clone(&self) -> (r: Self)
        ensures
            r.rewind_key@ == self.rewind_key@,
            r.blinding_key@ == self.blinding_key@,
    {
        RewindData {
            rewind_key: clone_bytes(&self.rewind_key),
            blinding_key: clone_bytes(&self.blinding_key),
        }
    }
}

/// The public halves of the wallet's rewind keys.
pub struct PublicRewindKeys {
    /// Public half of the rewind key.
    pub rewind_public_key: Vec<u8>,
    /// Public half of the blinding key.
    pub rewind_blinding_public_key: Vec<u8>,
}

/// Mathematical model of the key manager: the master secret and the next
/// free derivation index.
pub struct MkmV {
    /// The master secret bytes.
    pub master: Seq<u8>,
    /// The next unused index of the spend and script branches.
    pub next_index: u64,
}

/// The master key manager.
pub struct MasterKeyManager {
    /// The master secret.
    pub master_secret: Vec<u8>,
    /// The next unused index of the spend and script branches.
    pub next_index: u64,
}

impl View for MasterKeyManager {
    type V = MkmV;

    open spec fn view(&self) -> MkmV {
        MkmV { master: self.master_secret@, next_index: self.next_index }
    }
}

/// One call of the next-key operation: the master secret is untouched and
/// the counter advances by exactly one.
pub open spec fn spec_next_key_transition(pre: MkmV, post: MkmV) -> bool {
    &&& post.master == pre.master
    &&& pre.next_index < u64::MAX
    &&& post.next_index == pre.next_index + 1
}

/// The spend key a state's next call returns.
pub open spec fn spec_next_spend_key(s: MkmV) -> Seq<u8> {
    spec_derived_key(s.master, BRANCH_SPEND, s.next_index)
}

/// The script key a state's next call returns.
pub open spec fn spec_next_script_key(s: MkmV) -> Seq<u8> {
    spec_derived_key(s.master, BRANCH_SCRIPT, s.next_index)
}

impl MasterKeyManager {
    /// A key manager over the given master secret, starting at index zero.
    pub fn new(master_secret: Vec<u8>) -> (r: Self)
        ensures
            r@.master == master_secret@,
            r@.next_index == 0,
    {
        MasterKeyManager { master_secret, next_index: 0 }
    }

    /// Returns the spend and script keys at the next free index and advances
    /// the counter. Index allocation is strictly serialized, so no index is
    /// ever handed out twice.
    pub fn get_next_spend_and_script_key(&mut self) -> (r: (Vec<u8>, Vec<u8>))
        requires
            old(self)@.next_index < u64::MAX,
        ensures
            spec_next_key_transition(old(self)@, final(self)@),
            r.0@ == spec_next_spend_key(old(self)@),
            r.1@ == spec_next_script_key(old(self)@),
            r.0@.len() == 32,
            r.1@.len() == 32,
    {
        let index = self.next_index;
        let spend = derive_key(self.master_secret.as_slice(), BRANCH_SPEND, index);
        let script = derive_key(self.master_secret.as_slice(), BRANCH_SCRIPT, index);
        self.next_index = index + 1;
        (spend, script)
    }

    /// The coinbase spend and script keys for a block height; deterministic,
    /// the height is the index.
    pub fn get_coinbase_spend_and_script_key_for_height(&self, height: u64) -> (r: (Vec<u8>, Vec<u8>))
        ensures
            r.0@ == spec_derived_key(self@.master, BRANCH_COINBASE_SPEND, height),
            r.1@ == spec_derived_key(self@.master, BRANCH_COINBASE_SCRIPT, height),
            r.0@.len() == 32,
            r.1@.len() == 32,
    {
        let spend = derive_key(self.master_secret.as_slice(), BRANCH_COINBASE_SPEND, height);
        let script = derive_key(self.master_secret.as_slice(), BRANCH_COINBASE_SCRIPT, height);
        (spend, script)
    }

    /// The wallet's rewind key pair; constant for the wallet's lifetime.
    pub fn rewind_data(&self) -> (r: RewindData)
        ensures
            r.rewind_key@ == spec_derived_key(self@.master, BRANCH_REWIND, 0),
            r.blinding_key@ == spec_derived_key(self@.master, BRANCH_BLINDING, 0),
            r.rewind_key@.len() == 32,
            r.blinding_key@.len() == 32,
    {
        RewindData {
            rewind_key: derive_key(self.master_secret.as_slice(), BRANCH_REWIND, 0),
            blinding_key: derive_key(self.master_secret.as_slice(), BRANCH_BLINDING, 0),
        }
    }

    /// Serializes the master secret to a mnemonic word list: twenty-four
    /// words, each naming an eleven-bit group of the secret followed by a
    /// one-byte digest checksum. The language's word table is supplied by
    /// the caller.
    pub fn get_seed_words(&self, word_list: &Vec<String>) -> (r: Vec<String>)
        requires
            self@.master.len() == 32,
            word_list@.len() == 2048,
        ensures
            r@.len() == 24,
            forall|i: int|
                0 <= i < 24 ==> (#[trigger] r@[i])@ == word_list@[spec_seed_word_index(
                    spec_seed_stream(self@.master),
                    i,
                )]@,
    {
        let digest = crate::crypto::blake2b_digest(self.master_secret.as_slice());
        let mut stream = clone_bytes(&self.master_secret);
        stream.push(digest[0]);
        let ghost sv = spec_seed_stream(self@.master);
        proof {
            assert(stream@ =~= sv);
        }
        let mut words: Vec<String> = Vec::new();
        let mut i: usize = 0;
        while i < 24
            invariant
                0 <= i <= 24,
                stream@ == sv,
                sv.len() == 33,
                word_list@.len() == 2048,
                words@.len() == i,
                forall|ii: int|
                    0 <= ii < i ==> (#[trigger] words@[ii])@ == word_list@[spec_seed_word_index(
                        sv,
                        ii,
                    )]@,
            decreases 24 - i,
        {
            let mut acc: u64 = 0;
            let mut b: usize = 0;
            while b < 11
                invariant
                    0 <= b <= 11,
                    0 <= i < 24,
                    stream@ == sv,
                    sv.len() == 33,
                    acc == spec_seed_index_prefix(sv, i as int, b as nat),
                    acc < spec_pow2(b as nat),
                decreases 11 - b,
            {
                proof {
                    lemma_seed_index_prefix_bound(sv, i as int, (b + 1) as nat);
                    lemma_seed_index_prefix_bound(sv, i as int, b as nat);
                    assert(spec_pow2(11) == 2048) by {
                        reveal_with_fuel(spec_pow2, 12);
                    }
                    assert(spec_pow2(b as nat) <= spec_pow2(11)) by {
                        lemma_pow2_monotone(b as nat, 11);
                    }
                }
                let k = 11 * i + b;
                let bit = ((stream[k / 8] as u64) >> ((7 - (k % 8)) as u64)) & 1;
                proof {
                    assert(bit == spec_seed_bit(sv, k as int));
                }
                acc = acc * 2 + bit;
                b += 1;
            }
            proof {
                lemma_seed_index_prefix_bound(sv, i as int, 11);
                assert(spec_pow2(11) == 2048) by {
                    reveal_with_fuel(spec_pow2, 12);
                }
            }
            let word = word_list[acc as usize].clone();
            let ghost prev = words@;
            words.push(word);
            proof {
                assert(words@ =~= prev.push(words@[i as int]));
            }
            i += 1;
        }
        words
    }

    /// Only the public halves of the rewind keys.
    pub fn get_rewind_public_keys(&self) -> (r: PublicRewindKeys)
        ensures
            r.rewind_public_key@ == spec_public_key(
                spec_derived_key(self@.master, BRANCH_REWIND, 0),
            ),
            r.rewind_blinding_public_key@ == spec_public_key(
                spec_derived_key(self@.master, BRANCH_BLINDING, 0),
            ),
    {
        let rd = self.rewind_data();
        PublicRewindKeys {
            rewind_public_key: public_key_of(rd.rewind_key.as_slice()),
            rewind_blinding_public_key: public_key_of(rd.blinding_key.as_slice()),
        }
    }
}

/// Powers of two.
pub open spec fn spec_pow2(n: nat) -> int
    decreases n,
{
    if n == 0 {
        1
    } else {
        2 * spec_pow2((n - 1) as nat)
    }
}

/// Bit `k` of a byte string, counting from the first byte's highest bit.
pub open spec fn spec_seed_bit(bytes: Seq<u8>, k: int) -> u64 {
    ((bytes[k / 8] as u64) >> ((7 - (k % 8)) as u64)) & 1
}

/// The first `n` bits of the `i`-th eleven-bit group, as a big-endian
/// accumulator.
pub open spec fn spec_seed_index_prefix(bytes: Seq<u8>, i: int, n: nat) -> int
    decreases n,
{
    if n == 0 {
        0
    } else {
        spec_seed_index_prefix(bytes, i, (n - 1) as nat) * 2 + spec_seed_bit(
            bytes,
            11 * i + (n - 1),
        )
    }
}

/// The `i`-th eleven-bit word index of the seed stream.
pub open spec fn spec_seed_word_index(bytes: Seq<u8>, i: int) -> int {
    spec_seed_index_prefix(bytes, i, 11)
}

/// The seed stream: the master secret followed by its digest's first byte
/// as a checksum, giving exactly twenty-four eleven-bit groups.
pub open spec fn spec_seed_stream(master: Seq<u8>) -> Seq<u8> {
    master + seq![crate::crypto::blake2b_of(master)[0]]
}

/// Powers of two grow with the exponent.
pub proof fn lemma_pow2_monotone(a: nat, b: nat)
    requires
        a <= b,
    ensures
        spec_pow2(a) <= spec_pow2(b),
    decreases b,
{
    if a < b {
        lemma_pow2_monotone(a, (b - 1) as nat);
        lemma_seed_pow2_pos((b - 1) as nat);
    }
}

/// Powers of two are positive.
pub proof fn lemma_seed_pow2_pos(n: nat)
    ensures
        spec_pow2(n) >= 1,
    decreases n,
{
    if n > 0 {
        lemma_seed_pow2_pos((n - 1) as nat);
    }
}

/// A bit accumulator stays below the corresponding power of two.
pub proof fn lemma_seed_index_prefix_bound(bytes: Seq<u8>, i: int, n: nat)
    ensures
        0 <= spec_seed_index_prefix(bytes, i, n) < spec_pow2(n),
    decreases n,
{
    if n > 0 {
        lemma_seed_index_prefix_bound(bytes, i, (n - 1) as nat);
        assert(spec_seed_bit(bytes, 11 * i + (n - 1)) <= 1) by {
            let b = bytes[(11 * i + (n - 1)) / 8] as u64;
            let sh = (7 - ((11 * i + (n - 1)) % 8)) as u64;
            assert((b >> sh) & 1 <= 1) by (bit_vector);
        }
    }
}

/// Key non-reuse: two successive next-key calls consume distinct indices, and
/// each returned key is the derivation of the master secret at its branch and
/// the consumed index. (Distinctness of the derived key bytes themselves
/// would need injectivity of the digest, which no contract states.)
pub proof fn lemma_key_non_reuse(s0: MkmV, s1: MkmV, s2: MkmV)
    requires
        spec_next_key_transition(s0, s1),
        spec_next_key_transition(s1, s2),
    ensures
        s0.next_index != s1.next_index,
        s1.master == s0.master,
        spec_next_spend_key(s0) == spec_derived_key(s0.master, BRANCH_SPEND, s0.next_index),
        spec_next_spend_key(s1) == spec_derived_key(
            s0.master,
            BRANCH_SPEND,
            (s0.next_index + 1) as u64,
        ),
{
}

} // verus!
