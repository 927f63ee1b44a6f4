use fletch::interner::SymTable;
use fletch::types::ty::FloatTy;
use fletch::vm::bigint::Int;
use fletch::vm::chunk::{Chunk, ChunkBuilder};
use fletch::vm::instr::{Addr, Imm, Instr, Reg};
use fletch::vm::module::{FuncId, FuncObj, Module};
use fletch::vm::value::{Piece, Value};
use fletch::vm::{Action, Fault, FloatOp, Vm};
use std::collections::HashMap;

fn render(pieces: &[Piece]) -> String {
    let mut out = String::new();
    for piece in pieces {
        match piece {
            Piece::Text(text) => out.push_str(text),
            Piece::Float32(bits) => out.push_str(&f32::from_bits(*bits).to_string()),
            Piece::Float64(bits) => out.push_str(&f64::from_bits(*bits).to_string()),
        }
    }
    out
}

fn big(value: i128) -> Int {
    Int { bytes: value.to_le_bytes().to_vec() }
}

#[test]
fn test_minimal_chunk() {
    let chunk = Chunk {
        func_id: FuncId(12),
        code: vec![Instr::Return { r0: Reg(0) }.encode()],
        labels: vec![(0, "start".into())],
        constants: vec![Value::new_null()],
        stack_size: 0,
    };
    let text = render(&chunk.disassemble(&SymTable::new()));
    let mut lines = text.lines();
    assert_eq!(lines.next(), Some("[attrs]"));
    assert_eq!(lines.next(), Some("func_id = 12"));
    assert_eq!(lines.next(), Some("stack_size = 0"));
    assert_eq!(lines.next(), Some(""));
    assert_eq!(lines.next(), Some("[code]"));
    assert_eq!(lines.next(), Some("start:"));
    assert_eq!(lines.next(), Some("    ret       r0"));
    assert_eq!(lines.next(), Some(""));
    assert_eq!(lines.next(), Some("[constants]"));
    assert_eq!(lines.next(), Some("    Null"));
    assert_eq!(lines.next(), None);
}

#[test]
fn roundtrip_primitive_values() {
    let sym_table = SymTable::new();
    let print = |value: Value| render(&value.display_ctx(&sym_table));

    assert_eq!(print(Value::new_unit()), "()");
    assert_eq!(print(Value::new_null()), "null");
    assert_eq!(print(Value::new_bool(false)), "false");
    assert_eq!(print(Value::new_bool(true)), "true");
    assert_eq!(print(Value::new_int(big(0))), "0");
    assert_eq!(print(Value::new_int(big(1))), "1");
    assert_eq!(print(Value::new_int(big(2))), "2");
    assert_eq!(print(Value::new_int(big(i32::MAX.into()))), i32::MAX.to_string());
    assert_eq!(print(Value::new_int(big(i32::MIN.into()))), i32::MIN.to_string());
    assert_eq!(print(Value::new_int(big(i64::MAX.into()))), i64::MAX.to_string());
    assert_eq!(print(Value::new_int(big(i64::MIN.into()))), i64::MIN.to_string());
    assert_eq!(print(Value::new_int(big(i128::MAX))), i128::MAX.to_string());
    assert_eq!(print(Value::new_int(big(i128::MIN))), i128::MIN.to_string());
    assert_eq!(print(Value::new_str("")), r#""""#);
    assert_eq!(print(Value::new_str("hello world")), r#""hello world""#);
    assert_eq!(print(Value::new_str("hello\nworld")), r#""hello\nworld""#);
    assert_eq!(print(Value::new_f32(0.0f32.to_bits())), "0");
    assert_eq!(print(Value::new_f32(1.0f32.to_bits())), "1");
    assert_eq!(print(Value::new_f32(10.0f32.to_bits())), "10");
    assert_eq!(print(Value::new_f32(123.25f32.to_bits())), "123.25");
    assert_eq!(print(Value::new_f64(0.0f64.to_bits())), "0");
    assert_eq!(print(Value::new_f64(1.0f64.to_bits())), "1");
    assert_eq!(print(Value::new_f64(10.0f64.to_bits())), "10");
    assert_eq!(print(Value::new_f64(123.25f64.to_bits())), "123.25");
}

#[test]
fn compound_values_are_written_with_their_parts() {
    let mut sym_table = SymTable::new();
    let some: fletch::ast::Symbol = sym_table.intern_str("Some");
    let print = |value: Value, table: &SymTable| render(&value.display_ctx(table));
    let array = Value::new_array(vec![Value::new_int(big(1)), Value::new_int(big(2))]);
    assert_eq!(print(array, &sym_table), "[1, 2]");
    assert_eq!(print(Value::new_array(vec![]), &sym_table), "[]");
    assert_eq!(print(Value::new_tuple(vec![]), &sym_table), "()");
    assert_eq!(print(Value::new_tuple(vec![Value::new_bool(true)]), &sym_table), "(true,)");
    let pair = Value::new_tuple(vec![Value::new_null(), Value::new_str("a")]);
    assert_eq!(print(pair, &sym_table), "(null, \"a\")");
    let variant = Value::new_variant(some, Value::new_int(big(-3)));
    assert_eq!(print(variant, &sym_table), "Some(-3)");
    assert_eq!(print(Value::new_func(FuncId(4)), &sym_table), "<func:4>");
}

#[test]
fn values_compare_by_contents() {
    let a = Value::new_array(vec![Value::new_int(big(5)), Value::new_str("x")]);
    let b = Value::new_array(vec![Value::new_int(big(5)), Value::new_str("x")]);
    let c = Value::new_array(vec![Value::new_int(big(5)), Value::new_str("y")]);
    assert!(a.equals(&b));
    assert!(!a.equals(&c));
    assert!(!Value::new_null().equals(&Value::new_unit()));
    let nan = f64::NAN.to_bits();
    assert!(Value::new_f64(nan).equals(&Value::new_f64(nan)));
    assert!(Value::new_f64(0.0f64.to_bits()).equals(&Value::new_f64((-0.0f64).to_bits())));
    // The same number held in more bytes is the same integer.
    assert!(Value::new_int(big(7)).equals(&Value::new_int(Int { bytes: vec![7] })));
}

#[test]
fn builder_resolves_labels_and_shares_constants() {
    let mut b = ChunkBuilder::new();
    b.ins_label("start");
    let k = b.constant(Value::new_int(big(1)));
    assert_eq!(k, Imm(0));
    assert_eq!(b.constant(Value::new_int(big(1))), Imm(0));
    assert_eq!(b.constant(Value::new_null()), Imm(1));
    b.ins(Instr::Load { rd: Reg(0), imm: k });
    b.ins_jump_if_false(Reg(0), "end");
    b.ins_jump("start");
    b.ins_label("end");
    b.ins(Instr::Return { r0: Reg(0) });
    let chunk = b.build(FuncId(1), 1);
    assert_eq!(Instr::decode(chunk.code[1]), Instr::JumpIfFalse { r0: Reg(0), addr: Addr(3) });
    assert_eq!(Instr::decode(chunk.code[2]), Instr::Jump { addr: Addr(0) });
    let names: Vec<(usize, &str)> = chunk.labels.iter().map(|(a, n)| (*a, n.as_str())).collect();
    assert_eq!(names, vec![(0, "start"), (3, "end")]);
    assert_eq!(chunk.constants.len(), 2);
    let text = render(&chunk.disassemble(&SymTable::new()));
    assert!(text.contains("end:\n    ret       r0\n"));
    assert!(text.contains("<end>\n"));
    assert!(text.contains("    Int(1)\n"));
}

fn module_of(chunks: Vec<(u32, Chunk)>, main: u32) -> Module {
    let mut funcs = HashMap::new();
    for (id, chunk) in chunks {
        funcs.insert(id, FuncObj { name: format!("f{id}"), chunk });
    }
    Module { main: FuncId(main), funcs }
}

fn run(vm: &mut Vm) -> Result<String, Fault> {
    let mut out = String::new();
    vm.start()?;
    loop {
        match vm.step()? {
            Action::Continue => {}
            Action::Print(pieces) => out.push_str(&render(&pieces)),
            Action::Float { op, lhs, rhs, rd } => {
                let (a, b) = (f64::from_bits(lhs), f64::from_bits(rhs));
                let r = match op {
                    FloatOp::Add => a + b,
                    FloatOp::Sub => a - b,
                    FloatOp::Mul => a * b,
                    FloatOp::Div => a / b,
                };
                vm.complete_float(rd, r.to_bits())?;
            }
            Action::Halt => return Ok(out),
        }
    }
}

#[test]
fn machine_adds_and_prints() {
    let mut b = ChunkBuilder::new();
    let seven = b.constant(Value::new_int(big(7)));
    let five = b.constant(Value::new_int(big(5)));
    b.ins(Instr::Load { rd: Reg(0), imm: seven });
    b.ins(Instr::Load { rd: Reg(1), imm: five });
    b.ins(Instr::Sub { r0: Reg(0), r1: Reg(1), rd: Reg(2) });
    b.ins(Instr::Print { r0: Reg(2) });
    b.ins(Instr::Lt { r0: Reg(0), r1: Reg(1), rd: Reg(2) });
    b.ins(Instr::Print { r0: Reg(2) });
    b.ins(Instr::Return { r0: Reg(2) });
    let module = module_of(vec![(0, b.build(FuncId(0), 3))], 0);
    let sym_table = SymTable::new();
    let mut vm = Vm::new(&module, &sym_table);
    assert_eq!(run(&mut vm), Ok("2\nfalse\n".to_string()));
}

#[test]
fn machine_calls_loops_and_hands_out_floats() {
    // f(): prints -(1.5), returns unit
    let mut f = ChunkBuilder::new();
    f.ins(Instr::LoadF64Zero { rd: Reg(0) });
    let x = f.constant(Value::new_f64(1.5f64.to_bits()));
    f.ins(Instr::Load { rd: Reg(0), imm: x });
    f.ins(Instr::FNeg { w: FloatTy::Float64, r0: Reg(0), rd: Reg(2) });
    f.ins(Instr::Print { r0: Reg(2) });
    f.ins(Instr::LoadUnit { rd: Reg(0) });
    f.ins(Instr::Return { r0: Reg(0) });
    // main: counts down from 2, calling f each time
    let mut m = ChunkBuilder::new();
    let func = m.constant(Value::new_func(FuncId(1)));
    let two = m.constant(Value::new_int(big(2)));
    let one = m.constant(Value::new_int(big(1)));
    m.ins(Instr::Load { rd: Reg(0), imm: two });
    m.ins(Instr::Load { rd: Reg(1), imm: one });
    m.ins(Instr::LoadIntZero { rd: Reg(4) });
    m.ins_label("loop");
    m.ins(Instr::Lt { r0: Reg(4), r1: Reg(0), rd: Reg(2) });
    m.ins_jump_if_false(Reg(2), "done");
    m.ins(Instr::Load { rd: Reg(5), imm: func });
    m.ins(Instr::Call { func: Reg(5), rd: Reg(3) });
    m.ins(Instr::Sub { r0: Reg(0), r1: Reg(1), rd: Reg(0) });
    m.ins_jump("loop");
    m.ins_label("done");
    m.ins(Instr::Return { r0: Reg(3) });
    let module = module_of(vec![(0, m.build(FuncId(0), 6)), (1, f.build(FuncId(1), 3))], 0);
    let sym_table = SymTable::new();
    let mut vm = Vm::new(&module, &sym_table);
    assert_eq!(run(&mut vm), Ok("-1.5\n-1.5\n".to_string()));
}

#[test]
fn binary_float_operations_decode_as_f32_and_fault() {
    // The encoding of a binary float operation keeps no width, so it
    // decodes as an `f32` operation, which the machine does not run.
    let mut b = ChunkBuilder::new();
    b.ins(Instr::LoadF64Zero { rd: Reg(0) });
    b.ins(Instr::FMul { w: FloatTy::Float64, r0: Reg(0), r1: Reg(0), rd: Reg(1) });
    let module = module_of(vec![(0, b.build(FuncId(0), 2))], 0);
    let sym_table = SymTable::new();
    let mut vm = Vm::new(&module, &sym_table);
    assert_eq!(run(&mut vm), Err(Fault::Float32Op));
}

#[test]
fn machine_faults_instead_of_panicking() {
    let mut b = ChunkBuilder::new();
    b.ins(Instr::LoadTrue { rd: Reg(0) });
    b.ins(Instr::Neg { r0: Reg(0), rd: Reg(1) });
    let module = module_of(vec![(0, b.build(FuncId(0), 2))], 0);
    let sym_table = SymTable::new();
    let mut vm = Vm::new(&module, &sym_table);
    assert_eq!(run(&mut vm), Err(Fault::NotInt));

    let mut b = ChunkBuilder::new();
    b.ins(Instr::LoadIntZero { rd: Reg(0) });
    b.ins(Instr::Div { r0: Reg(0), r1: Reg(0), rd: Reg(1) });
    let module = module_of(vec![(0, b.build(FuncId(0), 2))], 0);
    let mut vm = Vm::new(&module, &sym_table);
    assert_eq!(run(&mut vm), Err(Fault::DivByZero));

    let module = module_of(vec![], 0);
    let mut vm = Vm::new(&module, &sym_table);
    assert_eq!(vm.start(), Err(Fault::NoFunction));
}

#[test]
fn integers_of_any_size() {
    let mut b = ChunkBuilder::new();
    let big_k = b.constant(Value::new_int(big(i64::MAX as i128)));
    let three = b.constant(Value::new_int(big(3)));
    let minus_seven = b.constant(Value::new_int(big(-7)));
    let two = b.constant(Value::new_int(big(2)));
    b.ins(Instr::Load { rd: Reg(0), imm: big_k });
    b.ins(Instr::Load { rd: Reg(1), imm: three });
    b.ins(Instr::Add { r0: Reg(0), r1: Reg(1), rd: Reg(2) });
    b.ins(Instr::Print { r0: Reg(2) });
    b.ins(Instr::Sub { r0: Reg(1), r1: Reg(0), rd: Reg(2) });
    b.ins(Instr::Print { r0: Reg(2) });
    b.ins(Instr::Mul { r0: Reg(0), r1: Reg(0), rd: Reg(2) });
    b.ins(Instr::Print { r0: Reg(2) });
    b.ins(Instr::Load { rd: Reg(3), imm: minus_seven });
    b.ins(Instr::Load { rd: Reg(4), imm: two });
    b.ins(Instr::Div { r0: Reg(3), r1: Reg(4), rd: Reg(2) });
    b.ins(Instr::Print { r0: Reg(2) });
    b.ins(Instr::Neg { r0: Reg(1), rd: Reg(2) });
    b.ins(Instr::Print { r0: Reg(2) });
    b.ins(Instr::Lt { r0: Reg(1), r1: Reg(0), rd: Reg(2) });
    b.ins(Instr::Print { r0: Reg(2) });
    b.ins(Instr::Eq { r0: Reg(0), r1: Reg(1), rd: Reg(2) });
    b.ins(Instr::Print { r0: Reg(2) });
    b.ins(Instr::Return { r0: Reg(2) });
    let module = module_of(vec![(0, b.build(FuncId(0), 5))], 0);
    let sym_table = SymTable::new();
    let mut vm = Vm::new(&module, &sym_table);
    let expected = "9223372036854775810\n-9223372036854775804\n85070591730234615847396907784232501249\n-3\n-3\ntrue\nfalse\n";
    assert_eq!(run(&mut vm), Ok(expected.to_string()));
    assert!(Value::new_int(big(0)).equals(&Value::new_int(Int::zero())));
}

#[test]
fn negative_index_faults() {
    let mut b = ChunkBuilder::new();
    let minus_one = b.constant(Value::new_int(big(-1)));
    b.ins(Instr::LoadNull { rd: Reg(0) });
    b.ins(Instr::MakeArray { r0: Reg(0), rn: Reg(1), rd: Reg(1) });
    b.ins(Instr::Load { rd: Reg(2), imm: minus_one });
    b.ins(Instr::Index { r0: Reg(1), r1: Reg(2), rd: Reg(0) });
    let module = module_of(vec![(0, b.build(FuncId(0), 3))], 0);
    let sym_table = SymTable::new();
    let mut vm = Vm::new(&module, &sym_table);
    assert_eq!(run(&mut vm), Err(Fault::BadIndex));
}

#[test]
fn machine_indexes_arrays_and_compares() {
    let mut b = ChunkBuilder::new();
    let ten = b.constant(Value::new_int(big(10)));
    let twenty = b.constant(Value::new_int(big(20)));
    let one = b.constant(Value::new_int(big(1)));
    let five = b.constant(Value::new_int(big(5)));
    b.ins(Instr::Load { rd: Reg(0), imm: ten });
    b.ins(Instr::Load { rd: Reg(1), imm: twenty });
    b.ins(Instr::MakeArray { r0: Reg(0), rn: Reg(2), rd: Reg(3) });
    b.ins(Instr::Print { r0: Reg(3) });
    b.ins(Instr::Load { rd: Reg(4), imm: one });
    b.ins(Instr::Index { r0: Reg(3), r1: Reg(4), rd: Reg(5) });
    b.ins(Instr::Print { r0: Reg(5) });
    b.ins(Instr::Load { rd: Reg(4), imm: five });
    b.ins(Instr::Index { r0: Reg(3), r1: Reg(4), rd: Reg(5) });
    b.ins(Instr::Print { r0: Reg(5) });
    b.ins(Instr::Eq { r0: Reg(0), r1: Reg(0), rd: Reg(5) });
    b.ins(Instr::Not { r0: Reg(5), rd: Reg(5) });
    b.ins(Instr::Print { r0: Reg(5) });
    b.ins(Instr::MakeTuple { r0: Reg(0), rn: Reg(2), rd: Reg(5) });
    b.ins(Instr::Print { r0: Reg(5) });
    b.ins(Instr::Return { r0: Reg(5) });
    let module = module_of(vec![(0, b.build(FuncId(0), 6))], 0);
    let sym_table = SymTable::new();
    let mut vm = Vm::new(&module, &sym_table);
    assert_eq!(run(&mut vm), Ok("[10, 20]\n20\nnull\nfalse\n(10, 20)\n".to_string()));
}

#[test]
fn module_lists_every_function() {
    let mut a = ChunkBuilder::new();
    a.ins(Instr::Return { r0: Reg(0) });
    let mut b = ChunkBuilder::new();
    b.ins(Instr::LoadNull { rd: Reg(0) });
    b.ins(Instr::Return { r0: Reg(0) });
    let module = module_of(vec![(0, a.build(FuncId(0), 1)), (7, b.build(FuncId(7), 1))], 0);
    let text = render(&module.disassemble(&SymTable::new()));
    assert!(text.contains("<f0>\n[attrs]\nfunc_id = 0\nstack_size = 1\n\n[code]\n    ret       r0\n\n"));
    assert!(text.contains("<f7>\n[attrs]\nfunc_id = 7\n"));
    assert!(text.contains("    load      r0, null\n"));
    assert_eq!(text.matches("[attrs]").count(), 2);
    assert!(std::ptr::eq(module.main(), &module.funcs[&0].chunk));
}

fn fault_of(code: Vec<fletch::vm::instr::EncodedInstr>, constants: Vec<Value>, stack_size: usize) -> Result<String, Fault> {
    let chunk = Chunk { func_id: FuncId(0), code, labels: vec![], constants, stack_size };
    let module = module_of(vec![(0, chunk)], 0);
    let sym_table = SymTable::new();
    let mut vm = Vm::new(&module, &sym_table);
    run(&mut vm)
}

#[test]
fn each_fault_has_its_cause() {
    let null0 = Instr::LoadNull { rd: Reg(0) }.encode();
    assert_eq!(fault_of(vec![null0], vec![], 1), Err(Fault::BadPc));
    assert_eq!(fault_of(vec![fletch::vm::instr::EncodedInstr(14)], vec![], 1), Err(Fault::UnknownOpcode));
    assert_eq!(fault_of(vec![null0], vec![], 0), Err(Fault::BadRegister));
    let range = Instr::MakeArray { r0: Reg(1), rn: Reg(0), rd: Reg(0) }.encode();
    assert_eq!(fault_of(vec![range], vec![], 2), Err(Fault::BadRange));
    let load = Instr::Load { rd: Reg(0), imm: Imm(5) }.encode();
    assert_eq!(fault_of(vec![load], vec![], 1), Err(Fault::BadConstant));
    let branch = Instr::JumpIfTrue { r0: Reg(0), addr: Addr(0) }.encode();
    assert_eq!(fault_of(vec![null0, branch], vec![], 1), Err(Fault::NotBool));
    let fneg = Instr::FNeg { w: FloatTy::Float64, r0: Reg(0), rd: Reg(0) }.encode();
    assert_eq!(fault_of(vec![null0, fneg], vec![], 1), Err(Fault::NotFloat));
    let call = Instr::Call { func: Reg(0), rd: Reg(0) }.encode();
    assert_eq!(fault_of(vec![null0, call], vec![], 1), Err(Fault::NotFunc));
    let index = Instr::Index { r0: Reg(0), r1: Reg(0), rd: Reg(0) }.encode();
    assert_eq!(fault_of(vec![null0, index], vec![], 1), Err(Fault::NotArray));
    let mut table = SymTable::new();
    let tag: fletch::ast::Symbol = table.intern_str("Some");
    let print = Instr::Print { r0: Reg(0) }.encode();
    let variant = Value::new_variant(tag, Value::new_null());
    let load0 = Instr::Load { rd: Reg(0), imm: Imm(0) }.encode();
    assert_eq!(fault_of(vec![load0, print], vec![variant], 1), Err(Fault::BadSymbol));
    let make = Instr::MakeVariant { r0: Reg(0), imm: Imm(0), rd: Reg(0) }.encode();
    assert_eq!(fault_of(vec![make], vec![], 1), Err(Fault::Unsupported));
    let call_missing = Instr::Call { func: Reg(0), rd: Reg(0) }.encode();
    let func = Value::new_func(FuncId(9));
    assert_eq!(fault_of(vec![load0, call_missing], vec![func], 1), Err(Fault::NoFunction));
}
