//! Register-machine instructions and their 32-bit encoding.
//!
//! Layout of an encoded instruction: bits 0..6 hold the opcode, bit 7 the
//! float width, bits 8..16 the first register, bits 16..24 the second register
//! (or bits 16..32 a 16-bit immediate or address), bits 24..32 the third
//! register (or an 8-bit immediate).
use vstd::prelude::*;

use crate::text::{decimal, push_char, push_chars, push_decimal};
use crate::types::ty::{FloatTy, IntTy, UIntTy};

verus! {

#[derive(Clone, Copy, PartialEq, Eq, Debug)]
pub enum Instr {
    Return { r0: Reg },
    LoadUnit { rd: Reg },
    LoadNull { rd: Reg },
    LoadFalse { rd: Reg },
    LoadTrue { rd: Reg },
    LoadIntZero { rd: Reg },
    LoadF32Zero { rd: Reg },
    LoadF64Zero { rd: Reg },
    Load { rd: Reg, imm: Imm },
    Print { r0: Reg },
    Add { r0: Reg, r1: Reg, rd: Reg },
    Sub { r0: Reg, r1: Reg, rd: Reg },
    Mul { r0: Reg, r1: Reg, rd: Reg },
    Div { r0: Reg, r1: Reg, rd: Reg },
    Eq { r0: Reg, r1: Reg, rd: Reg },
    Lt { r0: Reg, r1: Reg, rd: Reg },
    Not { r0: Reg, rd: Reg },
    Neg { r0: Reg, rd: Reg },
    FNeg { w: FloatTy, r0: Reg, rd: Reg },
    Move { r0: Reg, rd: Reg },
    MakeArray { r0: Reg, rn: Reg, rd: Reg },
    Index { r0: Reg, r1: Reg, rd: Reg },
    MakeTuple { r0: Reg, rn: Reg, rd: Reg },
    MakeVariant { r0: Reg, imm: Imm, rd: Reg },
    Jump { addr: Addr },
    JumpIfTrue { r0: Reg, addr: Addr },
    JumpIfFalse { r0: Reg, addr: Addr },
    FAdd { w: FloatTy, r0: Reg, r1: Reg, rd: Reg },
    FSub { w: FloatTy, r0: Reg, r1: Reg, rd: Reg },
    FMul { w: FloatTy, r0: Reg, r1: Reg, rd: Reg },
    FDiv { w: FloatTy, r0: Reg, r1: Reg, rd: Reg },
    FLt { w: FloatTy, r0: Reg, r1: Reg, rd: Reg },
    Call { func: Reg, rd: Reg },
}

#[derive(Clone, Copy, PartialEq, Eq, Debug)]
pub struct EncodedInstr(pub u32);

#[derive(Clone, Copy, PartialEq, Eq, Debug)]
pub enum Width {
    _8,
    _16,
    _32,
    _64,
}

#[derive(Clone, Copy, PartialEq, Eq, Debug)]
pub struct Reg(pub u16);

#[derive(Clone, Copy, PartialEq, Eq, Debug)]
pub struct Imm(pub u16);

#[derive(Clone, Copy, PartialEq, Eq, Debug)]
pub struct Addr(pub u16);

impl Width {
    /// Position in the declaration order (8, 16, 32, 64 bits).
    pub open spec fn rank(self) -> nat {
        match self {
            Width::_8 => 0,
            Width::_16 => 1,
            Width::_32 => 2,
            Width::_64 => 3,
        }
    }

    pub fn as_uint(self) -> (t: UIntTy)
        ensures
            t.rank() == self.rank(),
    {
        match self {
            Self::_8 => UIntTy::UInt8,
            Self::_16 => UIntTy::UInt16,
            Self::_32 => UIntTy::UInt32,
            Self::_64 => UIntTy::UInt64,
        }
    }

    pub fn as_int(self) -> (t: IntTy)
        ensures
            t.rank() == self.rank(),
    {
        match self {
            Self::_8 => IntTy::Int8,
            Self::_16 => IntTy::Int16,
            Self::_32 => IntTy::Int32,
            Self::_64 => IntTy::Int64,
        }
    }

    /// Only 32 and 64 bits are float widths.
    pub fn as_float(self) -> (t: FloatTy)
        requires
            self.rank() >= 2,
        ensures
            t.rank() + 2 == self.rank(),
    {
        match self {
            Self::_32 => FloatTy::Float32,
            Self::_64 => FloatTy::Float64,
            _ => FloatTy::Float32,
        }
    }

    /// The width in bits, in decimal ("8", "16", "32", "64").
    pub fn to_string(&self) -> (s: String)
        ensures
            s@ == decimal(self.bits()),
    {
        let mut s = String::new();
        push_decimal(&mut s, self.bits_exec());
        s
    }

    pub open spec fn bits(self) -> nat {
        match self {
            Width::_8 => 8,
            Width::_16 => 16,
            Width::_32 => 32,
            Width::_64 => 64,
        }
    }

    fn bits_exec(&self) -> (b: u64)
        ensures
            b == self.bits(),
    {
        match self {
            Width::_8 => 8,
            Width::_16 => 16,
            Width::_32 => 32,
            Width::_64 => 64,
        }
    }
}

// ---------------------------------------------------------------------------
// Encoding
// ---------------------------------------------------------------------------

/// The float width bit.
pub open spec fn fwid_bit(w: FloatTy) -> u32 {
    match w {
        FloatTy::Float32 => 0,
        FloatTy::Float64 => 1,
    }
}

pub open spec fn or_shl(e: u32, v: u16, shift: u32) -> u32 {
    e | ((v as u32) << shift)
}

/// Opcode, then the first register.
pub open spec fn enc_a(op: u32, a: u16) -> u32 {
    or_shl(op, a, 8)
}

/// Opcode and three registers.
pub open spec fn enc_abc(op: u32, a: u16, b: u16, c: u16) -> u32 {
    or_shl(or_shl(or_shl(op, a, 8), b, 16), c, 24)
}

/// Opcode, the first and the third register.
pub open spec fn enc_ac(op: u32, a: u16, c: u16) -> u32 {
    or_shl(or_shl(op, a, 8), c, 24)
}

/// Opcode, the first and the second register.
pub open spec fn enc_ab(op: u32, a: u16, b: u16) -> u32 {
    or_shl(or_shl(op, a, 8), b, 16)
}

/// Opcode, float width bit, the first and the third register.
pub open spec fn enc_fac(op: u32, f: u32, a: u16, c: u16) -> u32 {
    or_shl(or_shl(op | (f << 7), a, 8), c, 24)
}

/// Opcode, the first register and a 16-bit field.
pub open spec fn enc_am(op: u32, a: u16, m: u16) -> u32 {
    or_shl(or_shl(op, a, 8), m, 16)
}

/// Opcode and a 16-bit field.
pub open spec fn enc_m(op: u32, m: u16) -> u32 {
    or_shl(op, m, 16)
}

/// The 32-bit encoding of an instruction.
pub open spec fn encode_spec(i: Instr) -> u32 {
    match i {
        Instr::Return { r0 } => enc_a(0, r0.0),
        Instr::LoadUnit { rd } => enc_a(1, rd.0),
        Instr::LoadNull { rd } => enc_a(2, rd.0),
        Instr::LoadFalse { rd } => enc_a(3, rd.0),
        Instr::LoadTrue { rd } => enc_a(4, rd.0),
        Instr::LoadIntZero { rd } => enc_a(5, rd.0),
        Instr::LoadF32Zero { rd } => enc_a(6, rd.0),
        Instr::LoadF64Zero { rd } => enc_a(7, rd.0),
        Instr::Load { rd, imm } => enc_am(8, rd.0, imm.0),
        Instr::Print { r0 } => enc_a(9, r0.0),
        Instr::Add { r0, r1, rd } => enc_abc(10, r0.0, r1.0, rd.0),
        Instr::Sub { r0, r1, rd } => enc_abc(11, r0.0, r1.0, rd.0),
        Instr::Mul { r0, r1, rd } => enc_abc(12, r0.0, r1.0, rd.0),
        Instr::Div { r0, r1, rd } => enc_abc(13, r0.0, r1.0, rd.0),
        Instr::Eq { r0, r1, rd } => enc_abc(15, r0.0, r1.0, rd.0),
        Instr::Lt { r0, r1, rd } => enc_abc(16, r0.0, r1.0, rd.0),
        Instr::Not { r0, rd } => enc_ac(18, r0.0, rd.0),
        Instr::Neg { r0, rd } => enc_ac(19, r0.0, rd.0),
        Instr::FNeg { w, r0, rd } => enc_fac(20, fwid_bit(w), r0.0, rd.0),
        Instr::MakeArray { r0, rn, rd } => enc_abc(21, r0.0, rn.0, rd.0),
        Instr::Index { r0, r1, rd } => enc_abc(22, r0.0, r1.0, rd.0),
        Instr::MakeTuple { r0, rn, rd } => enc_abc(23, r0.0, rn.0, rd.0),
        Instr::MakeVariant { r0, imm, rd } => enc_abc(24, r0.0, rd.0, imm.0),
        Instr::Move { r0, rd } => enc_ab(25, r0.0, rd.0),
        Instr::Jump { addr } => enc_m(30, addr.0),
        Instr::JumpIfTrue { r0, addr } => enc_am(31, r0.0, addr.0),
        Instr::JumpIfFalse { r0, addr } => enc_am(32, r0.0, addr.0),
        Instr::FAdd { w, r0, r1, rd } => enc_abc(40, r0.0, r1.0, rd.0),
        Instr::FSub { w, r0, r1, rd } => enc_abc(41, r0.0, r1.0, rd.0),
        Instr::FMul { w, r0, r1, rd } => enc_abc(42, r0.0, r1.0, rd.0),
        Instr::FDiv { w, r0, r1, rd } => enc_abc(43, r0.0, r1.0, rd.0),
        Instr::FLt { w, r0, r1, rd } => enc_abc(44, r0.0, r1.0, rd.0),
        Instr::Call { func, rd } => enc_ac(50, func.0, rd.0),
    }
}

pub open spec fn get_opcode_spec(e: u32) -> u32 {
    e & 0x3f
}

pub open spec fn get_fwid_spec(e: u32) -> FloatTy {
    if (e >> 7) & 1 == 0 {
        FloatTy::Float32
    } else {
        FloatTy::Float64
    }
}

pub open spec fn get_reg0_spec(e: u32) -> Reg {
    Reg(((e >> 8) & 0xff) as u16)
}

pub open spec fn get_reg1_spec(e: u32) -> Reg {
    Reg(((e >> 16) & 0xff) as u16)
}

pub open spec fn get_reg2_spec(e: u32) -> Reg {
    Reg(((e >> 24) & 0xff) as u16)
}

pub open spec fn get_imm1_spec(e: u32) -> Imm {
    Imm(((e >> 16) & 0xffff) as u16)
}

pub open spec fn get_imm2_spec(e: u32) -> Imm {
    Imm(((e >> 24) & 0xff) as u16)
}

pub open spec fn get_addr_spec(e: u32) -> Addr {
    Addr(((e >> 16) & 0xffff) as u16)
}

/// The opcodes that `decode` knows.
pub open spec fn is_known_opcode(op: u32) -> bool {
    ||| op <= 13
    ||| op == 15
    ||| op == 16
    ||| (18 <= op && op <= 25)
    ||| (30 <= op && op <= 32)
    ||| (40 <= op && op <= 43)
    ||| op == 50
}

/// The instruction an encoding with a known opcode stands for.
pub open spec fn decode_spec(e: u32) -> Instr {
    let op = get_opcode_spec(e);
    let r0 = get_reg0_spec(e);
    let r1 = get_reg1_spec(e);
    let r2 = get_reg2_spec(e);
    if op == 0 {
        Instr::Return { r0 }
    } else if op == 1 {
        Instr::LoadUnit { rd: r0 }
    } else if op == 2 {
        Instr::LoadNull { rd: r0 }
    } else if op == 3 {
        Instr::LoadFalse { rd: r0 }
    } else if op == 4 {
        Instr::LoadTrue { rd: r0 }
    } else if op == 5 {
        Instr::LoadIntZero { rd: r0 }
    } else if op == 6 {
        Instr::LoadF32Zero { rd: r0 }
    } else if op == 7 {
        Instr::LoadF64Zero { rd: r0 }
    } else if op == 8 {
        Instr::Load { rd: r0, imm: get_imm1_spec(e) }
    } else if op == 9 {
        Instr::Print { r0 }
    } else if op == 10 {
        Instr::Add { r0, r1, rd: r2 }
    } else if op == 11 {
        Instr::Sub { r0, r1, rd: r2 }
    } else if op == 12 {
        Instr::Mul { r0, r1, rd: r2 }
    } else if op == 13 {
        Instr::Div { r0, r1, rd: r2 }
    } else if op == 15 {
        Instr::Eq { r0, r1, rd: r2 }
    } else if op == 16 {
        Instr::Lt { r0, r1, rd: r2 }
    } else if op == 18 {
        Instr::Not { r0, rd: r2 }
    } else if op == 19 {
        Instr::Neg { r0, rd: r2 }
    } else if op == 20 {
        Instr::FNeg { w: get_fwid_spec(e), r0, rd: r2 }
    } else if op == 21 {
        Instr::MakeArray { r0, rn: r1, rd: r2 }
    } else if op == 22 {
        Instr::Index { r0, r1, rd: r2 }
    } else if op == 23 {
        Instr::MakeTuple { r0, rn: r1, rd: r2 }
    } else if op == 24 {
        Instr::MakeVariant { r0, imm: get_imm2_spec(e), rd: r1 }
    } else if op == 25 {
        Instr::Move { r0, rd: r1 }
    } else if op == 30 {
        Instr::Jump { addr: get_addr_spec(e) }
    } else if op == 31 {
        Instr::JumpIfTrue { r0, addr: get_addr_spec(e) }
    } else if op == 32 {
        Instr::JumpIfFalse { r0, addr: get_addr_spec(e) }
    } else if op == 40 {
        Instr::FAdd { w: get_fwid_spec(e), r0, r1, rd: r2 }
    } else if op == 41 {
        Instr::FSub { w: get_fwid_spec(e), r0, r1, rd: r2 }
    } else if op == 42 {
        Instr::FMul { w: get_fwid_spec(e), r0, r1, rd: r2 }
    } else if op == 43 {
        Instr::FDiv { w: get_fwid_spec(e), r0, r1, rd: r2 }
    } else {
        Instr::Call { func: r0, rd: r2 }
    }
}

impl EncodedInstr {
    fn opcode(opcode: u8) -> (res: Self)
        ensures
            res.0 == opcode as u32,
    {
        Self(opcode as u32)
    }

    fn fwid(self, width: FloatTy) -> (res: Self)
        ensures
            res.0 == self.0 | (fwid_bit(width) << 7),
    {
        let bit: u32 = match width {
            FloatTy::Float32 => 0,
            FloatTy::Float64 => 1,
        };
        Self(self.0 | (bit << 7))
    }

    fn reg0(self, reg: Reg) -> (res: Self)
        ensures
            res.0 == or_shl(self.0, reg.0, 8),
    {
        Self(self.0 | ((reg.0 as u32) << 8))
    }

    fn reg1(self, reg: Reg) -> (res: Self)
        ensures
            res.0 == or_shl(self.0, reg.0, 16),
    {
        Self(self.0 | ((reg.0 as u32) << 16))
    }

    fn reg2(self, reg: Reg) -> (res: Self)
        ensures
            res.0 == or_shl(self.0, reg.0, 24),
    {
        Self(self.0 | ((reg.0 as u32) << 24))
    }

    fn imm1(self, imm: Imm) -> (res: Self)
        ensures
            res.0 == or_shl(self.0, imm.0, 16),
    {
        Self(self.0 | ((imm.0 as u32) << 16))
    }

    fn imm2(self, imm: Imm) -> (res: Self)
        ensures
            res.0 == or_shl(self.0, imm.0, 24),
    {
        Self(self.0 | ((imm.0 as u32) << 24))
    }

    fn addr(self, addr: Addr) -> (res: Self)
        ensures
            res.0 == or_shl(self.0, addr.0, 16),
    {
        Self(self.0 | ((addr.0 as u32) << 16))
    }

    fn get_opcode(self) -> (op: u8)
        ensures
            op == get_opcode_spec(self.0),
    {
        let e = self.0;
        assert(e & 0x3f <= 0x3f) by (bit_vector);
        (e & 0x3f) as u8
    }

    /// Whether the opcode is one `decode` knows.
    pub fn is_known(self) -> (r: bool)
        ensures
            r == is_known_opcode(get_opcode_spec(self.0)),
    {
        let op = self.get_opcode();
        op <= 13 || op == 15 || op == 16 || (18 <= op && op <= 25) || (30 <= op && op <= 32) || (40
            <= op && op <= 43) || op == 50
    }

    fn get_fwid(self) -> (w: FloatTy)
        ensures
            w == get_fwid_spec(self.0),
    {
        if (self.0 >> 7) & 0x01 == 0 {
            FloatTy::Float32
        } else {
            FloatTy::Float64
        }
    }

    fn get_reg0(self) -> (r: Reg)
        ensures
            r == get_reg0_spec(self.0),
    {
        let e = self.0;
        assert((e >> 8) & 0xff <= 0xff) by (bit_vector);
        Reg(((e >> 8) & 0xff) as u16)
    }

    fn get_reg1(self) -> (r: Reg)
        ensures
            r == get_reg1_spec(self.0),
    {
        let e = self.0;
        assert((e >> 16) & 0xff <= 0xff) by (bit_vector);
        Reg(((e >> 16) & 0xff) as u16)
    }

    fn get_reg2(self) -> (r: Reg)
        ensures
            r == get_reg2_spec(self.0),
    {
        let e = self.0;
        assert((e >> 24) & 0xff <= 0xff) by (bit_vector);
        Reg(((e >> 24) & 0xff) as u16)
    }

    fn get_imm1(self) -> (r: Imm)
        ensures
            r == get_imm1_spec(self.0),
    {
        let e = self.0;
        assert((e >> 16) & 0xffff <= 0xffff) by (bit_vector);
        Imm(((e >> 16) & 0xffff) as u16)
    }

    fn get_imm2(self) -> (r: Imm)
        ensures
            r == get_imm2_spec(self.0),
    {
        let e = self.0;
        assert((e >> 24) & 0xff <= 0xff) by (bit_vector);
        Imm(((e >> 24) & 0xff) as u16)
    }

    fn get_addr(self) -> (r: Addr)
        ensures
            r == get_addr_spec(self.0),
    {
        let e = self.0;
        assert((e >> 16) & 0xffff <= 0xffff) by (bit_vector);
        Addr(((e >> 16) & 0xffff) as u16)
    }
}

impl Instr {
    pub fn encode(self) -> (res: EncodedInstr)
        ensures
            res.0 == encode_spec(self),
    {
        match self {
            Self::Return { r0 } => EncodedInstr::opcode(0).reg0(r0),
            Self::LoadUnit { rd } => EncodedInstr::opcode(1).reg0(rd),
            Self::LoadNull { rd } => EncodedInstr::opcode(2).reg0(rd),
            Self::LoadFalse { rd } => EncodedInstr::opcode(3).reg0(rd),
            Self::LoadTrue { rd } => EncodedInstr::opcode(4).reg0(rd),
            Self::LoadIntZero { rd } => EncodedInstr::opcode(5).reg0(rd),
            Self::LoadF32Zero { rd } => EncodedInstr::opcode(6).reg0(rd),
            Self::LoadF64Zero { rd } => EncodedInstr::opcode(7).reg0(rd),
            Self::Load { rd, imm } => EncodedInstr::opcode(8).reg0(rd).imm1(imm),
            Self::Print { r0 } => EncodedInstr::opcode(9).reg0(r0),
            Self::Add { r0, r1, rd } => EncodedInstr::opcode(10).reg0(r0).reg1(r1).reg2(rd),
            Self::Sub { r0, r1, rd } => EncodedInstr::opcode(11).reg0(r0).reg1(r1).reg2(rd),
            Self::Mul { r0, r1, rd } => EncodedInstr::opcode(12).reg0(r0).reg1(r1).reg2(rd),
            Self::Div { r0, r1, rd } => EncodedInstr::opcode(13).reg0(r0).reg1(r1).reg2(rd),
            Self::Eq { r0, r1, rd } => EncodedInstr::opcode(15).reg0(r0).reg1(r1).reg2(rd),
            Self::Lt { r0, r1, rd } => EncodedInstr::opcode(16).reg0(r0).reg1(r1).reg2(rd),
            Self::Not { r0, rd } => EncodedInstr::opcode(18).reg0(r0).reg2(rd),
            Self::Neg { r0, rd } => EncodedInstr::opcode(19).reg0(r0).reg2(rd),
            Self::FNeg { w, r0, rd } => EncodedInstr::opcode(20).fwid(w).reg0(r0).reg2(rd),
            Self::MakeArray { r0, rn, rd } => EncodedInstr::opcode(21).reg0(r0).reg1(rn).reg2(rd),
            Self::Index { r0, r1, rd } => EncodedInstr::opcode(22).reg0(r0).reg1(r1).reg2(rd),
            Self::MakeTuple { r0, rn, rd } => EncodedInstr::opcode(23).reg0(r0).reg1(rn).reg2(rd),
            Self::MakeVariant { r0, imm, rd } => EncodedInstr::opcode(24).reg0(r0).reg1(rd).imm2(
                imm,
            ),
            Self::Move { r0, rd } => EncodedInstr::opcode(25).reg0(r0).reg1(rd),
            Self::Jump { addr } => EncodedInstr::opcode(30).addr(addr),
            Self::JumpIfTrue { r0, addr } => EncodedInstr::opcode(31).reg0(r0).addr(addr),
            Self::JumpIfFalse { r0, addr } => EncodedInstr::opcode(32).reg0(r0).addr(addr),
            Self::FAdd { w, r0, r1, rd } => EncodedInstr::opcode(40).reg0(r0).reg1(r1).reg2(rd),
            Self::FSub { w, r0, r1, rd } => EncodedInstr::opcode(41).reg0(r0).reg1(r1).reg2(rd),
            Self::FMul { w, r0, r1, rd } => EncodedInstr::opcode(42).reg0(r0).reg1(r1).reg2(rd),
            Self::FDiv { w, r0, r1, rd } => EncodedInstr::opcode(43).reg0(r0).reg1(r1).reg2(rd),
            Self::FLt { w, r0, r1, rd } => EncodedInstr::opcode(44).reg0(r0).reg1(r1).reg2(rd),
            Self::Call { func, rd } => EncodedInstr::opcode(50).reg0(func).reg2(rd),
        }
    }

    /// Decodes an instruction; an unknown opcode is an illegal instruction.
    pub fn decode(enc: EncodedInstr) -> (res: Self)
        requires
            is_known_opcode(get_opcode_spec(enc.0)),
        ensures
            res == decode_spec(enc.0),
    {
        match enc.get_opcode() {
            0 => Self::Return { r0: enc.get_reg0() },
            1 => Self::LoadUnit { rd: enc.get_reg0() },
            2 => Self::LoadNull { rd: enc.get_reg0() },
            3 => Self::LoadFalse { rd: enc.get_reg0() },
            4 => Self::LoadTrue { rd: enc.get_reg0() },
            5 => Self::LoadIntZero { rd: enc.get_reg0() },
            6 => Self::LoadF32Zero { rd: enc.get_reg0() },
            7 => Self::LoadF64Zero { rd: enc.get_reg0() },
            8 => Self::Load { rd: enc.get_reg0(), imm: enc.get_imm1() },
            9 => Self::Print { r0: enc.get_reg0() },
            10 => Self::Add { r0: enc.get_reg0(), r1: enc.get_reg1(), rd: enc.get_reg2() },
            11 => Self::Sub { r0: enc.get_reg0(), r1: enc.get_reg1(), rd: enc.get_reg2() },
            12 => Self::Mul { r0: enc.get_reg0(), r1: enc.get_reg1(), rd: enc.get_reg2() },
            13 => Self::Div { r0: enc.get_reg0(), r1: enc.get_reg1(), rd: enc.get_reg2() },
            15 => Self::Eq { r0: enc.get_reg0(), r1: enc.get_reg1(), rd: enc.get_reg2() },
            16 => Self::Lt { r0: enc.get_reg0(), r1: enc.get_reg1(), rd: enc.get_reg2() },
            18 => Self::Not { r0: enc.get_reg0(), rd: enc.get_reg2() },
            19 => Self::Neg { r0: enc.get_reg0(), rd: enc.get_reg2() },
            20 => Self::FNeg { w: enc.get_fwid(), r0: enc.get_reg0(), rd: enc.get_reg2() },
            21 => Self::MakeArray { r0: enc.get_reg0(), rn: enc.get_reg1(), rd: enc.get_reg2() },
            22 => Self::Index { r0: enc.get_reg0(), r1: enc.get_reg1(), rd: enc.get_reg2() },
            23 => Self::MakeTuple { r0: enc.get_reg0(), rn: enc.get_reg1(), rd: enc.get_reg2() },
            24 => Self::MakeVariant { r0: enc.get_reg0(), imm: enc.get_imm2(), rd: enc.get_reg1() },
            25 => Self::Move { r0: enc.get_reg0(), rd: enc.get_reg1() },
            30 => Self::Jump { addr: enc.get_addr() },
            31 => Self::JumpIfTrue { r0: enc.get_reg0(), addr: enc.get_addr() },
            32 => Self::JumpIfFalse { r0: enc.get_reg0(), addr: enc.get_addr() },
            40 => Self::FAdd {
                w: enc.get_fwid(),
                r0: enc.get_reg0(),
                r1: enc.get_reg1(),
                rd: enc.get_reg2(),
            },
            41 => Self::FSub {
                w: enc.get_fwid(),
                r0: enc.get_reg0(),
                r1: enc.get_reg1(),
                rd: enc.get_reg2(),
            },
            42 => Self::FMul {
                w: enc.get_fwid(),
                r0: enc.get_reg0(),
                r1: enc.get_reg1(),
                rd: enc.get_reg2(),
            },
            43 => Self::FDiv {
                w: enc.get_fwid(),
                r0: enc.get_reg0(),
                r1: enc.get_reg1(),
                rd: enc.get_reg2(),
            },
            _ => Self::Call { func: enc.get_reg0(), rd: enc.get_reg2() },
        }
    }

    /// A jump instruction.
    pub open spec fn is_jump(self) -> bool {
        ||| self is Jump
        ||| self is JumpIfTrue
        ||| self is JumpIfFalse
    }

    /// Redirects a jump to `addr`; only jumps can be back-patched.
    pub fn patch_addr(self, addr: Addr) -> (res: Self)
        requires
            self.is_jump(),
        ensures
            res == (match self {
                Instr::Jump { .. } => Instr::Jump { addr },
                Instr::JumpIfTrue { r0, .. } => Instr::JumpIfTrue { r0, addr },
                _ => Instr::JumpIfFalse { r0: self->JumpIfFalse_r0, addr },
            }),
    {
        match self {
            Self::Jump { .. } => Self::Jump { addr },
            Self::JumpIfTrue { r0, .. } => Self::JumpIfTrue { r0, addr },
            Self::JumpIfFalse { r0, .. } => Self::JumpIfFalse { r0, addr },
            _ => Self::Jump { addr },
        }
    }
}

// ---------------------------------------------------------------------------
// Decoding undoes encoding
// ---------------------------------------------------------------------------

/// The instructions whose encoding keeps every field: registers and the 8-bit
/// immediate fit in eight bits, and the float width of a binary float
/// operation, which the encoding does not record, is 32 bits. The encoding of
/// `FLt` carries an opcode that `decode` does not know.
pub open spec fn roundtrips(i: Instr) -> bool {
    match i {
        Instr::Return { r0 } => r0.0 < 256,
        Instr::LoadUnit { rd } => rd.0 < 256,
        Instr::LoadNull { rd } => rd.0 < 256,
        Instr::LoadFalse { rd } => rd.0 < 256,
        Instr::LoadTrue { rd } => rd.0 < 256,
        Instr::LoadIntZero { rd } => rd.0 < 256,
        Instr::LoadF32Zero { rd } => rd.0 < 256,
        Instr::LoadF64Zero { rd } => rd.0 < 256,
        Instr::Load { rd, imm } => rd.0 < 256,
        Instr::Print { r0 } => r0.0 < 256,
        Instr::Add { r0, r1, rd } => r0.0 < 256 && r1.0 < 256 && rd.0 < 256,
        Instr::Sub { r0, r1, rd } => r0.0 < 256 && r1.0 < 256 && rd.0 < 256,
        Instr::Mul { r0, r1, rd } => r0.0 < 256 && r1.0 < 256 && rd.0 < 256,
        Instr::Div { r0, r1, rd } => r0.0 < 256 && r1.0 < 256 && rd.0 < 256,
        Instr::Eq { r0, r1, rd } => r0.0 < 256 && r1.0 < 256 && rd.0 < 256,
        Instr::Lt { r0, r1, rd } => r0.0 < 256 && r1.0 < 256 && rd.0 < 256,
        Instr::Not { r0, rd } => r0.0 < 256 && rd.0 < 256,
        Instr::Neg { r0, rd } => r0.0 < 256 && rd.0 < 256,
        Instr::FNeg { w, r0, rd } => r0.0 < 256 && rd.0 < 256,
        Instr::MakeArray { r0, rn, rd } => r0.0 < 256 && rn.0 < 256 && rd.0 < 256,
        Instr::Index { r0, r1, rd } => r0.0 < 256 && r1.0 < 256 && rd.0 < 256,
        Instr::MakeTuple { r0, rn, rd } => r0.0 < 256 && rn.0 < 256 && rd.0 < 256,
        Instr::MakeVariant { r0, imm, rd } => r0.0 < 256 && imm.0 < 256 && rd.0 < 256,
        Instr::Move { r0, rd } => r0.0 < 256 && rd.0 < 256,
        Instr::Jump { addr } => true,
        Instr::JumpIfTrue { r0, addr } => r0.0 < 256,
        Instr::JumpIfFalse { r0, addr } => r0.0 < 256,
        Instr::FAdd { w, r0, r1, rd } => w == FloatTy::Float32 && r0.0 < 256 && r1.0 < 256 && rd.0
            < 256,
        Instr::FSub { w, r0, r1, rd } => w == FloatTy::Float32 && r0.0 < 256 && r1.0 < 256 && rd.0
            < 256,
        Instr::FMul { w, r0, r1, rd } => w == FloatTy::Float32 && r0.0 < 256 && r1.0 < 256 && rd.0
            < 256,
        Instr::FDiv { w, r0, r1, rd } => w == FloatTy::Float32 && r0.0 < 256 && r1.0 < 256 && rd.0
            < 256,
        Instr::FLt { .. } => false,
        Instr::Call { func, rd } => func.0 < 256 && rd.0 < 256,
    }
}

proof fn lemma_shape_a(op: u32, a: u32)
    by (bit_vector)
    requires
        op < 64,
        a < 256,
    ensures
        (op | (a << 8)) & 0x3f == op,
        ((op | (a << 8)) >> 8) & 0xff == a,
{
}

proof fn lemma_shape_abc(op: u32, a: u32, b: u32, c: u32)
    by (bit_vector)
    requires
        op < 64,
        a < 256,
        b < 256,
        c < 256,
    ensures
        (((op | (a << 8)) | (b << 16)) | (c << 24)) & 0x3f == op,
        ((((op | (a << 8)) | (b << 16)) | (c << 24)) >> 7) & 1 == 0,
        ((((op | (a << 8)) | (b << 16)) | (c << 24)) >> 8) & 0xff == a,
        ((((op | (a << 8)) | (b << 16)) | (c << 24)) >> 16) & 0xff == b,
        ((((op | (a << 8)) | (b << 16)) | (c << 24)) >> 24) & 0xff == c,
{
}

proof fn lemma_shape_ac(op: u32, a: u32, c: u32)
    by (bit_vector)
    requires
        op < 64,
        a < 256,
        c < 256,
    ensures
        ((op | (a << 8)) | (c << 24)) & 0x3f == op,
        (((op | (a << 8)) | (c << 24)) >> 8) & 0xff == a,
        (((op | (a << 8)) | (c << 24)) >> 24) & 0xff == c,
{
}

proof fn lemma_shape_ab(op: u32, a: u32, b: u32)
    by (bit_vector)
    requires
        op < 64,
        a < 256,
        b < 256,
    ensures
        ((op | (a << 8)) | (b << 16)) & 0x3f == op,
        (((op | (a << 8)) | (b << 16)) >> 8) & 0xff == a,
        (((op | (a << 8)) | (b << 16)) >> 16) & 0xff == b,
{
}

proof fn lemma_shape_fac(op: u32, f: u32, a: u32, c: u32)
    by (bit_vector)
    requires
        op < 64,
        f < 2,
        a < 256,
        c < 256,
    ensures
        (((op | (f << 7)) | (a << 8)) | (c << 24)) & 0x3f == op,
        ((((op | (f << 7)) | (a << 8)) | (c << 24)) >> 7) & 1 == f,
        ((((op | (f << 7)) | (a << 8)) | (c << 24)) >> 8) & 0xff == a,
        ((((op | (f << 7)) | (a << 8)) | (c << 24)) >> 24) & 0xff == c,
{
}

proof fn lemma_shape_am(op: u32, a: u32, m: u32)
    by (bit_vector)
    requires
        op < 64,
        a < 256,
        m < 65536,
    ensures
        ((op | (a << 8)) | (m << 16)) & 0x3f == op,
        (((op | (a << 8)) | (m << 16)) >> 8) & 0xff == a,
        (((op | (a << 8)) | (m << 16)) >> 16) & 0xffff == m,
{
}

proof fn lemma_shape_m(op: u32, m: u32)
    by (bit_vector)
    requires
        op < 64,
        m < 65536,
    ensures
        (op | (m << 16)) & 0x3f == op,
        ((op | (m << 16)) >> 16) & 0xffff == m,
{
}

/// Decoding gives back the encoded instruction, for every instruction whose
/// fields the encoding keeps (see `roundtrips`).
pub proof fn lemma_decode_encode(i: Instr)
    requires
        roundtrips(i),
    ensures
        is_known_opcode(get_opcode_spec(encode_spec(i))),
        decode_spec(encode_spec(i)) == i,
{
    match i {
        Instr::Return { r0 } => lemma_shape_a(0, r0.0 as u32),
        Instr::LoadUnit { rd } => lemma_shape_a(1, rd.0 as u32),
        Instr::LoadNull { rd } => lemma_shape_a(2, rd.0 as u32),
        Instr::LoadFalse { rd } => lemma_shape_a(3, rd.0 as u32),
        Instr::LoadTrue { rd } => lemma_shape_a(4, rd.0 as u32),
        Instr::LoadIntZero { rd } => lemma_shape_a(5, rd.0 as u32),
        Instr::LoadF32Zero { rd } => lemma_shape_a(6, rd.0 as u32),
        Instr::LoadF64Zero { rd } => lemma_shape_a(7, rd.0 as u32),
        Instr::Load { rd, imm } => lemma_shape_am(8, rd.0 as u32, imm.0 as u32),
        Instr::Print { r0 } => lemma_shape_a(9, r0.0 as u32),
        Instr::Add { r0, r1, rd } => lemma_shape_abc(10, r0.0 as u32, r1.0 as u32, rd.0 as u32),
        Instr::Sub { r0, r1, rd } => lemma_shape_abc(11, r0.0 as u32, r1.0 as u32, rd.0 as u32),
        Instr::Mul { r0, r1, rd } => lemma_shape_abc(12, r0.0 as u32, r1.0 as u32, rd.0 as u32),
        Instr::Div { r0, r1, rd } => lemma_shape_abc(13, r0.0 as u32, r1.0 as u32, rd.0 as u32),
        Instr::Eq { r0, r1, rd } => lemma_shape_abc(15, r0.0 as u32, r1.0 as u32, rd.0 as u32),
        Instr::Lt { r0, r1, rd } => lemma_shape_abc(16, r0.0 as u32, r1.0 as u32, rd.0 as u32),
        Instr::Not { r0, rd } => lemma_shape_ac(18, r0.0 as u32, rd.0 as u32),
        Instr::Neg { r0, rd } => lemma_shape_ac(19, r0.0 as u32, rd.0 as u32),
        Instr::FNeg { w, r0, rd } => lemma_shape_fac(20, fwid_bit(w), r0.0 as u32, rd.0 as u32),
        Instr::MakeArray { r0, rn, rd } => lemma_shape_abc(
            21,
            r0.0 as u32,
            rn.0 as u32,
            rd.0 as u32,
        ),
        Instr::Index { r0, r1, rd } => lemma_shape_abc(22, r0.0 as u32, r1.0 as u32, rd.0 as u32),
        Instr::MakeTuple { r0, rn, rd } => lemma_shape_abc(
            23,
            r0.0 as u32,
            rn.0 as u32,
            rd.0 as u32,
        ),
        Instr::MakeVariant { r0, imm, rd } => lemma_shape_abc(
            24,
            r0.0 as u32,
            rd.0 as u32,
            imm.0 as u32,
        ),
        Instr::Move { r0, rd } => lemma_shape_ab(25, r0.0 as u32, rd.0 as u32),
        Instr::Jump { addr } => lemma_shape_m(30, addr.0 as u32),
        Instr::JumpIfTrue { r0, addr } => lemma_shape_am(31, r0.0 as u32, addr.0 as u32),
        Instr::JumpIfFalse { r0, addr } => lemma_shape_am(32, r0.0 as u32, addr.0 as u32),
        Instr::FAdd { w, r0, r1, rd } => lemma_shape_abc(40, r0.0 as u32, r1.0 as u32, rd.0 as u32),
        Instr::FSub { w, r0, r1, rd } => lemma_shape_abc(41, r0.0 as u32, r1.0 as u32, rd.0 as u32),
        Instr::FMul { w, r0, r1, rd } => lemma_shape_abc(42, r0.0 as u32, r1.0 as u32, rd.0 as u32),
        Instr::FDiv { w, r0, r1, rd } => lemma_shape_abc(43, r0.0 as u32, r1.0 as u32, rd.0 as u32),
        Instr::FLt { .. } => {},
        Instr::Call { func, rd } => lemma_shape_ac(50, func.0 as u32, rd.0 as u32),
    }
}

// ---------------------------------------------------------------------------
// Text
// ---------------------------------------------------------------------------

/// `r` followed by the register number.
pub open spec fn reg_text(r: Reg) -> Seq<char> {
    seq!['r'] + decimal(r.0 as nat)
}

/// `%` followed by the immediate.
pub open spec fn imm_text(i: Imm) -> Seq<char> {
    seq!['%'] + decimal(i.0 as nat)
}

/// The address in decimal.
pub open spec fn addr_text(a: Addr) -> Seq<char> {
    decimal(a.0 as nat)
}

/// `n` spaces.
pub open spec fn spaces(n: nat) -> Seq<char> {
    Seq::new(n, |i: int| ' ')
}

/// The operands, separated by `", "`.
pub open spec fn join_args(args: Seq<Seq<char>>) -> Seq<char>
    decreases args.len(),
{
    if args.len() == 0 {
        Seq::empty()
    } else if args.len() == 1 {
        args[0]
    } else {
        join_args(args.drop_last()) + seq![',', ' '] + args.last()
    }
}

/// An instruction line: the mnemonic, padded with spaces to ten columns when
/// operands follow, then the operands.
pub open spec fn instr_line(mnem: Seq<char>, args: Seq<Seq<char>>) -> Seq<char> {
    if args.len() == 0 {
        mnem
    } else {
        mnem + spaces((10 - mnem.len()) as nat) + join_args(args)
    }
}

/// How an instruction is written in a disassembly.
/// Two operands.
pub open spec fn args2(a: Seq<char>, b: Seq<char>) -> Seq<Seq<char>> {
    seq![a].push(b)
}

/// Three operands.
pub open spec fn args3(a: Seq<char>, b: Seq<char>, c: Seq<char>) -> Seq<Seq<char>> {
    seq![a].push(b).push(c)
}

pub open spec fn instr_text(i: Instr) -> Seq<char> {
    match i {
        Instr::Return { r0 } => instr_line("ret"@, seq![reg_text(r0)]),
        Instr::LoadUnit { rd } => instr_line("load"@, args2(reg_text(rd), "unit"@)),
        Instr::LoadNull { rd } => instr_line("load"@, args2(reg_text(rd), "null"@)),
        Instr::LoadFalse { rd } => instr_line("load"@, args2(reg_text(rd), "false"@)),
        Instr::LoadTrue { rd } => instr_line("load"@, args2(reg_text(rd), "true"@)),
        Instr::LoadIntZero { rd } => instr_line("load"@, args2(reg_text(rd), "0i"@)),
        Instr::LoadF32Zero { rd } => instr_line("load"@, args2(reg_text(rd), "0f32"@)),
        Instr::LoadF64Zero { rd } => instr_line("load"@, args2(reg_text(rd), "0f64"@)),
        Instr::Load { rd, imm } => instr_line("load"@, args2(reg_text(rd), imm_text(imm))),
        Instr::Print { r0 } => instr_line("print"@, seq![reg_text(r0)]),
        Instr::Add { r0, r1, rd } => instr_line(
            "add.i"@,
            args3(reg_text(rd), reg_text(r0), reg_text(r1)),
        ),
        Instr::Sub { r0, r1, rd } => instr_line(
            "sub.i"@,
            args3(reg_text(rd), reg_text(r0), reg_text(r1)),
        ),
        Instr::Mul { r0, r1, rd } => instr_line(
            "mul.i"@,
            args3(reg_text(rd), reg_text(r0), reg_text(r1)),
        ),
        Instr::Div { r0, r1, rd } => instr_line(
            "div.i"@,
            args3(reg_text(rd), reg_text(r0), reg_text(r1)),
        ),
        Instr::Eq { r0, r1, rd } => instr_line("eq"@, args3(reg_text(rd), reg_text(r0), reg_text(r1))),
        Instr::Lt { r0, r1, rd } => instr_line("lt"@, args3(reg_text(rd), reg_text(r0), reg_text(r1))),
        Instr::Not { r0, rd } => instr_line("not"@, args2(reg_text(rd), reg_text(r0))),
        Instr::Neg { r0, rd } => instr_line("neg.i"@, args2(reg_text(rd), reg_text(r0))),
        Instr::FNeg { w, r0, rd } => instr_line(
            if w == FloatTy::Float32 {
                "neg.f"@
            } else {
                "neg.d"@
            },
            args2(reg_text(rd), reg_text(r0)),
        ),
        Instr::Move { r0, rd } => instr_line("move"@, args2(reg_text(rd), reg_text(r0))),
        Instr::MakeArray { r0, rn, rd } => instr_line(
            "mk.arr"@,
            args3(reg_text(rd), reg_text(r0), reg_text(rn)),
        ),
        Instr::Index { r0, r1, rd } => instr_line(
            "index"@,
            args3(reg_text(rd), reg_text(r0), reg_text(r1)),
        ),
        Instr::MakeTuple { r0, rn, rd } => instr_line(
            "mk.tup"@,
            args3(reg_text(rd), reg_text(r0), reg_text(rn)),
        ),
        Instr::MakeVariant { r0, imm, rd } => instr_line(
            "mk.var"@,
            args3(reg_text(rd), reg_text(r0), imm_text(imm)),
        ),
        Instr::Jump { addr } => instr_line("jmp"@, seq![addr_text(addr)]),
        Instr::JumpIfTrue { r0, addr } => instr_line("brt"@, args2(reg_text(r0), addr_text(addr))),
        Instr::JumpIfFalse { r0, addr } => instr_line("brf"@, args2(reg_text(r0), addr_text(addr))),
        Instr::FAdd { w, r0, r1, rd } => instr_line(
            if w == FloatTy::Float32 {
                "add.f"@
            } else {
                "add.d"@
            },
            args3(reg_text(rd), reg_text(r0), reg_text(r1)),
        ),
        Instr::FSub { w, r0, r1, rd } => instr_line(
            if w == FloatTy::Float32 {
                "sub.f"@
            } else {
                "sub.d"@
            },
            args3(reg_text(rd), reg_text(r0), reg_text(r1)),
        ),
        Instr::FMul { w, r0, r1, rd } => instr_line(
            if w == FloatTy::Float32 {
                "mul.f"@
            } else {
                "mul.d"@
            },
            args3(reg_text(rd), reg_text(r0), reg_text(r1)),
        ),
        Instr::FDiv { w, r0, r1, rd } => instr_line(
            if w == FloatTy::Float32 {
                "div.f"@
            } else {
                "div.d"@
            },
            args3(reg_text(rd), reg_text(r0), reg_text(r1)),
        ),
        Instr::FLt { w, r0, r1, rd } => instr_line(
            if w == FloatTy::Float32 {
                "lt.f"@
            } else {
                "lt.d"@
            },
            args3(reg_text(rd), reg_text(r0), reg_text(r1)),
        ),
        Instr::Call { func, rd } => instr_line("call"@, args2(reg_text(rd), reg_text(func))),
    }
}

/// Writes one instruction line: the mnemonic, then the operands.
struct InstrWriter {
    out: String,
    instr_len: usize,
    first_arg: bool,
    mnem: Ghost<Seq<char>>,
    args: Ghost<Seq<Seq<char>>>,
}

impl InstrWriter {
    spec fn inv(&self) -> bool {
        &&& self.out@ == instr_line(self.mnem@, self.args@)
        &&& self.instr_len == self.mnem@.len()
        &&& self.instr_len <= 10
        &&& self.first_arg == (self.args@.len() == 0)
    }

    fn new() -> (w: Self)
        ensures
            w.inv(),
            w.mnem@ == Seq::<char>::empty(),
            w.args@ == Seq::<Seq<char>>::empty(),
    {
        InstrWriter {
            out: String::new(),
            instr_len: 0,
            first_arg: true,
            mnem: Ghost(Seq::empty()),
            args: Ghost(Seq::empty()),
        }
    }

    fn mnem(self, mnem: &str) -> (w: Self)
        requires
            self.inv(),
            self.mnem@.len() == 0,
            self.args@.len() == 0,
            mnem@.len() <= 10,
        ensures
            w.inv(),
            w.mnem@ == mnem@,
            w.args@ == self.args@,
    {
        let mut w = self;
        crate::text::push_str(&mut w.out, mnem);
        w.instr_len = crate::text::str_chars(mnem).len();
        w.mnem = Ghost(mnem@);
        assert(w.out@ =~= mnem@);
        w
    }

    fn start_arg(&mut self)
        requires
            old(self).inv(),
        ensures
            final(self).out@ == old(self).out@ + (if old(self).first_arg {
                spaces((10 - old(self).instr_len) as nat)
            } else {
                seq![',', ' ']
            }),
            final(self).instr_len == old(self).instr_len,
            final(self).first_arg == false,
            final(self).mnem == old(self).mnem,
            final(self).args == old(self).args,
    {
        if self.first_arg {
            let mut i = self.instr_len;
            let ghost start = self.out@;
            while i < 10
                invariant
                    old(self).instr_len <= i <= 10,
                    self.out@ == start + spaces((i - old(self).instr_len) as nat),
                    self.instr_len == old(self).instr_len,
                    self.first_arg == old(self).first_arg,
                    self.mnem == old(self).mnem,
                    self.args == old(self).args,
                decreases 10 - i,
            {
                push_char(&mut self.out, ' ');
                assert(spaces((i - old(self).instr_len) as nat).push(' ') =~= spaces(
                    (i + 1 - old(self).instr_len) as nat,
                ));
                i += 1;
            }
            self.first_arg = false;
        } else {
            push_char(&mut self.out, ',');
            push_char(&mut self.out, ' ');
            assert(self.out@ =~= old(self).out@ + seq![',', ' ']);
        }
    }

    fn finish_arg(&mut self, arg: Ghost<Seq<char>>)
        requires
            old(self).instr_len == old(self).mnem@.len(),
            old(self).instr_len <= 10,
            old(self).first_arg == false,
            old(self).out@ == instr_line(old(self).mnem@, old(self).args@) + (if old(
                self,
            ).args@.len() == 0 {
                spaces((10 - old(self).instr_len) as nat)
            } else {
                seq![',', ' ']
            }) + arg@,
        ensures
            final(self).inv(),
            final(self).mnem == old(self).mnem,
            final(self).args@ == old(self).args@.push(arg@),
    {
        let ghost args = old(self).args@;
        let ghost new_args = args.push(arg@);
        proof {
            assert(new_args.drop_last() =~= args);
            if args.len() == 0 {
                assert(join_args(new_args) == arg@);
            } else {
                assert(join_args(new_args) == join_args(args) + seq![',', ' '] + arg@);
            }
        }
        self.args = Ghost(new_args);
        assert(self.out@ =~= instr_line(self.mnem@, self.args@));
    }

    fn reg(self, reg: Reg) -> (w: Self)
        requires
            self.inv(),
        ensures
            w.inv(),
            w.mnem == self.mnem,
            w.args@ == self.args@.push(reg_text(reg)),
    {
        let mut w = self;
        w.start_arg();
        push_char(&mut w.out, 'r');
        push_decimal(&mut w.out, reg.0 as u64);
        proof {
            assert(w.out@ =~= instr_line(self.mnem@, self.args@) + (if self.args@.len() == 0 {
                spaces((10 - self.instr_len) as nat)
            } else {
                seq![',', ' ']
            }) + reg_text(reg));
        }
        w.finish_arg(Ghost(reg_text(reg)));
        w
    }

    fn val(self, val: &str) -> (w: Self)
        requires
            self.inv(),
        ensures
            w.inv(),
            w.mnem == self.mnem,
            w.args@ == self.args@.push(val@),
    {
        let mut w = self;
        w.start_arg();
        crate::text::push_str(&mut w.out, val);
        w.finish_arg(Ghost(val@));
        w
    }

    fn imm(self, imm: Imm) -> (w: Self)
        requires
            self.inv(),
        ensures
            w.inv(),
            w.mnem == self.mnem,
            w.args@ == self.args@.push(imm_text(imm)),
    {
        let mut w = self;
        w.start_arg();
        push_char(&mut w.out, '%');
        push_decimal(&mut w.out, imm.0 as u64);
        proof {
            assert(w.out@ =~= instr_line(self.mnem@, self.args@) + (if self.args@.len() == 0 {
                spaces((10 - self.instr_len) as nat)
            } else {
                seq![',', ' ']
            }) + imm_text(imm));
        }
        w.finish_arg(Ghost(imm_text(imm)));
        w
    }

    fn addr(self, addr: Addr) -> (w: Self)
        requires
            self.inv(),
        ensures
            w.inv(),
            w.mnem == self.mnem,
            w.args@ == self.args@.push(addr_text(addr)),
    {
        let mut w = self;
        w.start_arg();
        push_decimal(&mut w.out, addr.0 as u64);
        w.finish_arg(Ghost(addr_text(addr)));
        w
    }
}

impl Instr {
    /// The instruction as a disassembly line, e.g. `add.i     r3, r1, r2`.
    #[verifier::rlimit(50)]
    pub fn to_string(&self) -> (s: String)
        ensures
            s@ == instr_text(*self),
    {
        proof {
            reveal_strlit("ret");
            reveal_strlit("load");
            reveal_strlit("print");
            reveal_strlit("add.i");
            reveal_strlit("sub.i");
            reveal_strlit("mul.i");
            reveal_strlit("div.i");
            reveal_strlit("eq");
            reveal_strlit("lt");
            reveal_strlit("not");
            reveal_strlit("neg.i");
            reveal_strlit("neg.f");
            reveal_strlit("neg.d");
            reveal_strlit("move");
            reveal_strlit("mk.arr");
            reveal_strlit("index");
            reveal_strlit("mk.tup");
            reveal_strlit("mk.var");
            reveal_strlit("jmp");
            reveal_strlit("brt");
            reveal_strlit("brf");
            reveal_strlit("add.f");
            reveal_strlit("sub.f");
            reveal_strlit("mul.f");
            reveal_strlit("div.f");
            reveal_strlit("lt.f");
            reveal_strlit("add.d");
            reveal_strlit("sub.d");
            reveal_strlit("mul.d");
            reveal_strlit("div.d");
            reveal_strlit("lt.d");
            reveal_strlit("call");
        }
        let iw = InstrWriter::new();
        let w = match *self {
            Self::Return { r0 } => iw.mnem("ret").reg(r0),
            Self::LoadUnit { rd } => iw.mnem("load").reg(rd).val("unit"),
            Self::LoadNull { rd } => iw.mnem("load").reg(rd).val("null"),
            Self::LoadFalse { rd } => iw.mnem("load").reg(rd).val("false"),
            Self::LoadTrue { rd } => iw.mnem("load").reg(rd).val("true"),
            Self::LoadIntZero { rd } => iw.mnem("load").reg(rd).val("0i"),
            Self::LoadF32Zero { rd } => iw.mnem("load").reg(rd).val("0f32"),
            Self::LoadF64Zero { rd } => iw.mnem("load").reg(rd).val("0f64"),
            Self::Load { rd, imm } => iw.mnem("load").reg(rd).imm(imm),
            Self::Print { r0 } => iw.mnem("print").reg(r0),
            Self::Add { r0, r1, rd } => iw.mnem("add.i").reg(rd).reg(r0).reg(r1),
            Self::Sub { r0, r1, rd } => iw.mnem("sub.i").reg(rd).reg(r0).reg(r1),
            Self::Mul { r0, r1, rd } => iw.mnem("mul.i").reg(rd).reg(r0).reg(r1),
            Self::Div { r0, r1, rd } => iw.mnem("div.i").reg(rd).reg(r0).reg(r1),
            Self::Eq { r0, r1, rd } => iw.mnem("eq").reg(rd).reg(r0).reg(r1),
            Self::Lt { r0, r1, rd } => iw.mnem("lt").reg(rd).reg(r0).reg(r1),
            Self::Not { r0, rd } => iw.mnem("not").reg(rd).reg(r0),
            Self::Neg { r0, rd } => iw.mnem("neg.i").reg(rd).reg(r0),
            Self::FNeg { w: FloatTy::Float32, r0, rd } => iw.mnem("neg.f").reg(rd).reg(r0),
            Self::FNeg { w: FloatTy::Float64, r0, rd } => iw.mnem("neg.d").reg(rd).reg(r0),
            Self::Move { r0, rd } => iw.mnem("move").reg(rd).reg(r0),
            Self::MakeArray { r0, rn, rd } => iw.mnem("mk.arr").reg(rd).reg(r0).reg(rn),
            Self::Index { r0, r1, rd } => iw.mnem("index").reg(rd).reg(r0).reg(r1),
            Self::MakeTuple { r0, rn, rd } => iw.mnem("mk.tup").reg(rd).reg(r0).reg(rn),
            Self::MakeVariant { r0, imm, rd } => iw.mnem("mk.var").reg(rd).reg(r0).imm(imm),
            Self::Jump { addr } => iw.mnem("jmp").addr(addr),
            Self::JumpIfTrue { r0, addr } => iw.mnem("brt").reg(r0).addr(addr),
            Self::JumpIfFalse { r0, addr } => iw.mnem("brf").reg(r0).addr(addr),
            Self::FAdd { w: FloatTy::Float32, r0, r1, rd } => iw.mnem("add.f").reg(rd).reg(r0).reg(r1),
            Self::FSub { w: FloatTy::Float32, r0, r1, rd } => iw.mnem("sub.f").reg(rd).reg(r0).reg(r1),
            Self::FMul { w: FloatTy::Float32, r0, r1, rd } => iw.mnem("mul.f").reg(rd).reg(r0).reg(r1),
            Self::FDiv { w: FloatTy::Float32, r0, r1, rd } => iw.mnem("div.f").reg(rd).reg(r0).reg(r1),
            Self::FLt { w: FloatTy::Float32, r0, r1, rd } => iw.mnem("lt.f").reg(rd).reg(r0).reg(r1),
            Self::FAdd { w: FloatTy::Float64, r0, r1, rd } => iw.mnem("add.d").reg(rd).reg(r0).reg(r1),
            Self::FSub { w: FloatTy::Float64, r0, r1, rd } => iw.mnem("sub.d").reg(rd).reg(r0).reg(r1),
            Self::FMul { w: FloatTy::Float64, r0, r1, rd } => iw.mnem("mul.d").reg(rd).reg(r0).reg(r1),
            Self::FDiv { w: FloatTy::Float64, r0, r1, rd } => iw.mnem("div.d").reg(rd).reg(r0).reg(r1),
            Self::FLt { w: FloatTy::Float64, r0, r1, rd } => iw.mnem("lt.d").reg(rd).reg(r0).reg(r1),
            Self::Call { func, rd } => iw.mnem("call").reg(rd).reg(func),
        };
        assert(w.out@ == instr_line(w.mnem@, w.args@));
        w.out
    }
}

impl Reg {
    /// `r` followed by the register number.
    pub fn to_string(&self) -> (s: String)
        ensures
            s@ == reg_text(*self),
    {
        let mut s = String::new();
        push_char(&mut s, 'r');
        push_decimal(&mut s, self.0 as u64);
        assert(s@ =~= reg_text(*self));
        s
    }
}

impl Imm {
    /// `%` followed by the immediate.
    pub fn to_string(&self) -> (s: String)
        ensures
            s@ == imm_text(*self),
    {
        let mut s = String::new();
        push_char(&mut s, '%');
        push_decimal(&mut s, self.0 as u64);
        assert(s@ =~= imm_text(*self));
        s
    }
}

impl Addr {
    /// The address in decimal.
    pub fn to_string(&self) -> (s: String)
        ensures
            s@ == addr_text(*self),
    {
        let mut s = String::new();
        push_decimal(&mut s, self.0 as u64);
        assert(s@ =~= addr_text(*self));
        s
    }
}

} // verus!
