//! The stack machine's instruction set: a single `ret` so far.
use vstd::prelude::*;

verus! {

#[derive(Clone, Copy, PartialEq, Eq, Debug)]
pub enum Instr {
    Return,
}

#[derive(Clone, Copy, PartialEq, Eq, Debug)]
pub struct EncodedInstr(pub u32);

/// The machine word of an instruction.
pub open spec fn encode_spec(i: Instr) -> u32 {
    match i {
        Instr::Return => 0,
    }
}

/// Only the word 0 is a legal instruction.
pub open spec fn is_legal(w: u32) -> bool {
    w == 0
}

/// The instruction that a legal word stands for.
pub open spec fn decode_spec(w: u32) -> Instr {
    Instr::Return
}

impl Instr {
    pub fn encode(self) -> (res: EncodedInstr)
        ensures
            res.0 == encode_spec(self),
    {
        match self {
            Self::Return => EncodedInstr(0),
        }
    }

    /// Decodes a legal instruction word.
    pub fn decode(enc: EncodedInstr) -> (res: Self)
        requires
            is_legal(enc.0),
        ensures
            res == decode_spec(enc.0),
    {
        Self::Return
    }

    /// The instruction's mnemonic.
    pub fn to_string(&self) -> (s: String)
        ensures
            s@ == "ret"@,
    {
        let mut s = String::new();
        crate::text::push_str(&mut s, "ret");
        s
    }
}

/// Every encoded instruction is legal and decodes to itself.
pub proof fn lemma_decode_encode(i: Instr)
    ensures
        is_legal(encode_spec(i)),
        decode_spec(encode_spec(i)) == i,
{
}

} // verus!
