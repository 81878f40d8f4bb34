//! Script and witness-stack values, carried as plain bytes.

use vstd::prelude::*;
use crate::crypto::bytes_eq;
use crate::crypto::clone_bytes;

verus! {

/// Opcode of the no-operation script, the only script this wallet pays to.
pub const OP_NOP: u8 = 0x73;

/// A serialized spending script.
pub struct TariScript {
    /// The script's opcode bytes.
    pub bytes: Vec<u8>,
}

impl View for TariScript {
    type V = Seq<u8>;

    open spec fn view(&self) -> Seq<u8> {
        self.bytes@
    }
}

impl Clone for TariScript {
    fn clone(&self) -> (r: Self)
        ensures
            r@ == self@,
    {
        TariScript { bytes: clone_bytes(&self.bytes) }
    }
}

/// The byte form of the no-operation script.
pub open spec fn spec_nop_script() -> Seq<u8> {
    seq![OP_NOP]
}

impl TariScript {
    /// The no-operation script.
    pub fn nop() -> (r: Self)
        ensures
            r@ == spec_nop_script(),
    {
        let mut bytes: Vec<u8> = Vec::new();
        bytes.push(OP_NOP);
        proof {
            assert(bytes@ =~= spec_nop_script());
        }
        TariScript { bytes }
    }

    /// Builds a script from raw bytes.
    pub fn from_bytes(bytes: Vec<u8>) -> (r: Self)
        ensures
            r@ == bytes@,
    {
        TariScript { bytes }
    }

    /// Whether two scripts are byte-for-byte equal.
    pub fn equals(&self, other: &TariScript) -> (r: bool)
        ensures
            r == (self@ == other@),
    {
        bytes_eq(self.bytes.as_slice(), other.bytes.as_slice())
    }

    /// Whether this is the no-operation script.
    pub fn is_nop(&self) -> (r: bool)
        ensures
            r == (self@ == spec_nop_script()),
    {
        let nop = TariScript::nop();
        self.equals(&nop)
    }
}

/// A witness stack satisfying a script.
pub struct ExecutionStack {
    /// The stack's serialized items.
    pub bytes: Vec<u8>,
}

impl View for ExecutionStack {
    type V = Seq<u8>;

    open spec fn view(&self) -> Seq<u8> {
        self.bytes@
    }
}

impl Clone for ExecutionStack {
    fn clone(&self) -> (r: Self)
        ensures
            r@ == self@,
    {
        ExecutionStack { bytes: clone_bytes(&self.bytes) }
    }
}

impl ExecutionStack {
    /// The witness for a no-operation script: the spender's public key.
    pub fn for_public_key(public_key: &Vec<u8>) -> (r: Self)
        ensures
            r@ == public_key@,
    {
        ExecutionStack { bytes: clone_bytes(public_key) }
    }

    /// Builds a stack from raw bytes.
    pub fn from_bytes(bytes: Vec<u8>) -> (r: Self)
        ensures
            r@ == bytes@,
    {
        ExecutionStack { bytes }
    }
}

} // verus!
