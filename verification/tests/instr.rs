use fletch::bytecode::Instr as BInstr;
use fletch::types::ty::{FloatTy, IntTy, UIntTy};
use fletch::vm::instr::{Addr, EncodedInstr, Imm, Instr, Reg, Width};

#[test]
fn test_instr_roundtrip() {
    let test = |instr: Instr| {
        assert_eq!(instr, Instr::decode(instr.encode()));
    };

    test(Instr::Return { r0: Reg(0) });
    test(Instr::Return { r0: Reg(144) });
    test(Instr::Load { rd: Reg(0), imm: Imm(0) });
    test(Instr::Load { rd: Reg(78), imm: Imm(89) });
    test(Instr::Print { r0: Reg(0) });
    test(Instr::Print { r0: Reg(86) });
    test(Instr::Print { r0: Reg(234) });
    test(Instr::Add { r0: Reg(1), r1: Reg(2), rd: Reg(3) });
    test(Instr::Add { r0: Reg(10), r1: Reg(20), rd: Reg(30) });
    test(Instr::Add { r0: Reg(100), r1: Reg(200), rd: Reg(250) });
    test(Instr::Add { r0: Reg(255), r1: Reg(255), rd: Reg(255) });
    test(Instr::Sub { r0: Reg(1), r1: Reg(2), rd: Reg(3) });
    test(Instr::Sub { r0: Reg(10), r1: Reg(20), rd: Reg(30) });
    test(Instr::Sub { r0: Reg(100), r1: Reg(200), rd: Reg(250) });
    test(Instr::Sub { r0: Reg(255), r1: Reg(255), rd: Reg(255) });
    test(Instr::Move { r0: Reg(12), rd: Reg(24) });
    test(Instr::FNeg { w: FloatTy::Float32, r0: Reg(22), rd: Reg(23) });
    test(Instr::FNeg { w: FloatTy::Float64, r0: Reg(33), rd: Reg(34) });
    test(Instr::MakeVariant { r0: Reg(45), imm: Imm(10), rd: Reg(12) });
}

#[test]
fn encode_exact_words() {
    // opcode in bits 0..6, first register in bits 8..16
    assert_eq!(Instr::Return { r0: Reg(0) }.encode(), EncodedInstr(0));
    assert_ne!(Instr::Print { r0: Reg(1) }.encode(), Instr::Print { r0: Reg(2) }.encode());
    let w = Instr::Jump { addr: Addr(0x1234) }.encode();
    assert_eq!(w.0 >> 16, 0x1234);
}

#[test]
fn patch_addr_replaces_target() {
    let j = Instr::JumpIfTrue { r0: Reg(3), addr: Addr(1) };
    let patched = j.patch_addr(Addr(99));
    assert_eq!(patched, Instr::JumpIfTrue { r0: Reg(3), addr: Addr(99) });
    assert_eq!(Instr::decode(patched.encode()), patched);
}

#[test]
fn widths_of_scalar_types() {
    assert_eq!(IntTy::Int8.width(), Width::_8);
    assert_eq!(UIntTy::UInt64.width(), Width::_64);
    assert_eq!(FloatTy::Float32.width(), Width::_32);
    assert_eq!(Width::_16.as_uint(), UIntTy::UInt16);
    assert_eq!(Width::_32.as_int(), IntTy::Int32);
    assert_eq!(Width::_64.as_float(), FloatTy::Float64);
    assert_eq!(Width::_8.to_string(), "8");
}

#[test]
fn instr_text() {
    assert_eq!(Instr::Return { r0: Reg(0) }.to_string(), "ret       r0");
    assert_eq!(Reg(7).to_string(), "r7");
}

#[test]
fn bytecode_return_roundtrip() {
    let w = BInstr::Return.encode();
    assert_eq!(w.0, 0);
    assert_eq!(BInstr::decode(w), BInstr::Return);
    assert_eq!(BInstr::Return.to_string(), "ret");
}
