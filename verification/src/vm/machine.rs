//! The machine that runs a module, one instruction at a time: a stack of
//! registers, the frames of the calls under way, and the frame running.
use vstd::prelude::*;

use crate::interner::SymTable;
use crate::types::ty::FloatTy;
use crate::vm::bigint::{
    int_add, int_div, int_lt, int_mul, int_neg, int_sub, int_to_usize, trunc_div, Int,
};
use crate::vm::chunk::code_known;
use crate::vm::instr::{decode_spec, get_opcode_spec, is_known_opcode, Addr, Instr, Reg};
use crate::vm::module::{FuncId, Module};
use crate::vm::value::{
    pieces_v, text, value_eq, value_pieces, value_syms, value_v, values_v, values_v_of, Piece, PieceV,
    Value, ValueV,
};

verus! {

/// A call under way: the function, where its registers start on the stack,
/// the position of its next instruction, and the register of its caller that
/// receives what it returns.
#[derive(Clone, Copy, Debug)]
pub struct CallFrame {
    pub func: FuncId,
    pub base_idx: usize,
    pub pc: usize,
    pub rd: Reg,
}

/// The state of the machine, as values.
pub struct VmV {
    pub stack: Seq<ValueV>,
    pub frames: Seq<CallFrame>,
    pub current: CallFrame,
}

/// A float operation the machine hands out, on the bits of two `f64`s.
#[derive(Clone, Copy, PartialEq, Eq, Structural, Debug)]
pub enum FloatOp {
    Add,
    Sub,
    Mul,
    Div,
}

/// What a step asks of whoever runs the machine.
#[derive(Debug)]
pub enum Action {
    /// Nothing: run the next step.
    Continue,
    /// Write the text out, then run the next step.
    Print(Vec<Piece>),
    /// Compute `lhs op rhs` on `f64`s and hand the bits of the result back
    /// with `complete_float`.
    Float { op: FloatOp, lhs: u64, rhs: u64, rd: Reg },
    /// The program has ended.
    Halt,
}

/// An action, with the printed text by its pieces.
pub enum ActionV {
    Continue,
    Print(Seq<PieceV>),
    Float { op: FloatOp, lhs: u64, rhs: u64, rd: Reg },
    Halt,
}

pub open spec fn action_v(a: Action) -> ActionV {
    match a {
        Action::Continue => ActionV::Continue,
        Action::Print(ps) => ActionV::Print(pieces_v(ps@)),
        Action::Float { op, lhs, rhs, rd } => ActionV::Float { op, lhs, rhs, rd },
        Action::Halt => ActionV::Halt,
    }
}

/// Why a step cannot be run.
#[derive(Clone, Copy, PartialEq, Eq, Structural, Debug)]
pub enum Fault {
    /// The function called or running is not in the module.
    NoFunction,
    /// The next position holds no instruction.
    BadPc,
    /// The instruction has no known opcode.
    UnknownOpcode,
    /// A register lies past the stack.
    BadRegister,
    /// A range of registers is empty backwards or lies past the stack.
    BadRange,
    /// There is no such constant.
    BadConstant,
    /// A value is not a boolean.
    NotBool,
    /// A value is not an integer.
    NotInt,
    /// A value is not an `f64`.
    NotFloat,
    /// A value is not a function.
    NotFunc,
    /// A value is not an array.
    NotArray,
    /// A division by zero.
    DivByZero,
    /// An index is negative or too large.
    BadIndex,
    /// A value names a symbol the table does not hold.
    BadSymbol,
    /// A return with no caller to return to.
    NoFrame,
    /// The registers of a call lie past what can be addressed.
    Overflow,
    /// A binary float operation on `f32`s, which the machine does not run.
    Float32Op,
    /// An instruction the machine does not run.
    Unsupported,
}

/// The module has the function `f`.
pub open spec fn has_func(m: &Module, f: FuncId) -> bool {
    m.funcs@.contains_key(f.0)
}

/// The instructions of the function `f`.
pub open spec fn code_of(m: &Module, f: FuncId) -> Seq<crate::vm::instr::EncodedInstr> {
    m.funcs@[f.0].chunk.code@
}

/// The constants of the function `f`.
pub open spec fn consts_of(m: &Module, f: FuncId) -> Seq<ValueV> {
    values_v_of(m.funcs@[f.0].chunk.constants@)
}

/// The stack position of register `r` of the running frame.
pub open spec fn slot(st: VmV, r: Reg) -> int {
    st.current.base_idx + r.0
}

/// The stack holds register `r` of the running frame.
pub open spec fn reg_ok(st: VmV, r: Reg) -> bool {
    slot(st, r) < st.stack.len()
}

/// The value of register `r` of the running frame.
pub open spec fn rd_s(st: VmV, r: Reg) -> ValueV {
    st.stack[slot(st, r)]
}

/// The state with `v` in register `r` of the running frame.
pub open spec fn wr_s(st: VmV, r: Reg, v: ValueV) -> VmV {
    VmV { stack: st.stack.update(slot(st, r), v), ..st }
}

/// The state with the running frame at position `pc`.
pub open spec fn goto_s(st: VmV, pc: int) -> VmV {
    VmV { current: CallFrame { pc: pc as usize, ..st.current }, ..st }
}

/// Moves to the next instruction.
pub open spec fn next_s(st: VmV) -> Result<VmV, Fault> {
    if st.current.pc < usize::MAX {
        Ok(goto_s(st, st.current.pc + 1))
    } else {
        Err(Fault::Overflow)
    }
}

/// Moves to the next instruction, asking `a`.
pub open spec fn then_s(st: VmV, a: ActionV) -> Result<(VmV, ActionV), Fault> {
    match next_s(st) {
        Ok(s) => Ok((s, a)),
        Err(e) => Err(e),
    }
}

/// Writes `v` to `rd` and moves to the next instruction.
pub open spec fn put_s(st: VmV, rd: Reg, v: ValueV) -> Result<(VmV, ActionV), Fault> {
    if reg_ok(st, rd) {
        then_s(wr_s(st, rd, v), ActionV::Continue)
    } else {
        Err(Fault::BadRegister)
    }
}

/// The integer in register `r`.
pub open spec fn int_s(st: VmV, r: Reg) -> Result<int, Fault> {
    if !reg_ok(st, r) {
        Err(Fault::BadRegister)
    } else {
        match rd_s(st, r) {
            ValueV::Int(i) => Ok(i),
            _ => Err(Fault::NotInt),
        }
    }
}

/// The boolean in register `r`.
pub open spec fn bool_s(st: VmV, r: Reg) -> Result<bool, Fault> {
    if !reg_ok(st, r) {
        Err(Fault::BadRegister)
    } else {
        match rd_s(st, r) {
            ValueV::Bool(b) => Ok(b),
            _ => Err(Fault::NotBool),
        }
    }
}

/// The bits of the `f64` in register `r`.
pub open spec fn f64_s(st: VmV, r: Reg) -> Result<u64, Fault> {
    if !reg_ok(st, r) {
        Err(Fault::BadRegister)
    } else {
        match rd_s(st, r) {
            ValueV::Float64(b) => Ok(b),
            _ => Err(Fault::NotFloat),
        }
    }
}

/// An integer operation on registers `r0` and `r1` into `rd`.
pub open spec fn int_op_s(st: VmV, r0: Reg, r1: Reg, rd: Reg, op: spec_fn(int, int) -> int) -> Result<
    (VmV, ActionV),
    Fault,
> {
    match int_s(st, r0) {
        Err(e) => Err(e),
        Ok(a) => match int_s(st, r1) {
            Err(e) => Err(e),
            Ok(b) => put_s(st, rd, ValueV::Int(op(a, b))),
        },
    }
}

/// The values of registers `r0` up to `rn`, `rn` left out.
pub open spec fn range_s(st: VmV, r0: Reg, rn: Reg) -> Result<Seq<ValueV>, Fault> {
    if r0.0 <= rn.0 && slot(st, rn) <= st.stack.len() {
        Ok(st.stack.subrange(slot(st, r0), slot(st, rn)))
    } else {
        Err(Fault::BadRange)
    }
}

/// A float operation on registers `r0` and `r1`, handed out.
pub open spec fn float_s(st: VmV, w: FloatTy, op: FloatOp, r0: Reg, r1: Reg, rd: Reg) -> Result<
    (VmV, ActionV),
    Fault,
> {
    if w == FloatTy::Float32 {
        Err(Fault::Float32Op)
    } else {
        match f64_s(st, r0) {
            Err(e) => Err(e),
            Ok(a) => match f64_s(st, r1) {
                Err(e) => Err(e),
                Ok(b) => Ok((st, ActionV::Float { op, lhs: a, rhs: b, rd })),
            },
        }
    }
}

/// A conditional jump: to `addr` where register `r0` holds `when`.
pub open spec fn branch_s(st: VmV, r0: Reg, addr: Addr, when: bool) -> Result<(VmV, ActionV), Fault> {
    match bool_s(st, r0) {
        Err(e) => Err(e),
        Ok(b) => if b == when {
            Ok((goto_s(st, addr.0 as int), ActionV::Continue))
        } else {
            then_s(st, ActionV::Continue)
        },
    }
}

/// Starts a call of `f`: the running frame waits, and the new frame's
/// registers start `offset` registers after the running frame's, the stack
/// grown with nulls to hold them.
pub open spec fn push_frame_s(m: &Module, st: VmV, f: FuncId, offset: int, rd: Reg) -> Result<
    VmV,
    Fault,
> {
    if !has_func(m, f) {
        Err(Fault::NoFunction)
    } else if st.current.base_idx + offset + m.funcs@[f.0].chunk.stack_size > usize::MAX {
        Err(Fault::Overflow)
    } else {
        let base = st.current.base_idx + offset;
        let size = base + m.funcs@[f.0].chunk.stack_size;
        Ok(
            VmV {
                stack: if size > st.stack.len() {
                    st.stack + Seq::new((size - st.stack.len()) as nat, |i: int| ValueV::Null)
                } else {
                    st.stack
                },
                frames: st.frames.push(st.current),
                current: CallFrame { func: f, base_idx: base as usize, pc: 0, rd },
            },
        )
    }
}

/// Returns `v` from the running frame: the caller runs again, with `v` in
/// the register that receives it.
pub open spec fn return_s(st: VmV, v: ValueV) -> Result<(VmV, ActionV), Fault> {
    if st.frames.len() == 0 {
        Err(Fault::NoFrame)
    } else {
        let caller = VmV { frames: st.frames.drop_last(), current: st.frames.last(), ..st };
        let rd = st.current.rd;
        if !reg_ok(caller, rd) {
            Err(Fault::BadRegister)
        } else {
            let back = wr_s(caller, rd, v);
            if back.frames.len() == 0 {
                Ok((back, ActionV::Halt))
            } else {
                then_s(back, ActionV::Continue)
            }
        }
    }
}

/// What running instruction `i` does.
pub open spec fn exec_s(m: &Module, names: Seq<Seq<char>>, st: VmV, i: Instr) -> Result<
    (VmV, ActionV),
    Fault,
> {
    let consts = consts_of(m, st.current.func);
    match i {
        Instr::Return { r0 } => if reg_ok(st, r0) {
            return_s(st, rd_s(st, r0))
        } else {
            Err(Fault::BadRegister)
        },
        Instr::LoadUnit { rd } => put_s(st, rd, ValueV::Unit),
        Instr::LoadNull { rd } => put_s(st, rd, ValueV::Null),
        Instr::LoadFalse { rd } => put_s(st, rd, ValueV::Bool(false)),
        Instr::LoadTrue { rd } => put_s(st, rd, ValueV::Bool(true)),
        Instr::LoadIntZero { rd } => put_s(st, rd, ValueV::Int(0)),
        Instr::LoadF32Zero { rd } => put_s(st, rd, ValueV::Float32(0)),
        Instr::LoadF64Zero { rd } => put_s(st, rd, ValueV::Float64(0)),
        Instr::Load { rd, imm } => if imm.0 < consts.len() {
            put_s(st, rd, consts[imm.0 as int])
        } else {
            Err(Fault::BadConstant)
        },
        Instr::Print { r0 } => if !reg_ok(st, r0) {
            Err(Fault::BadRegister)
        } else if !value_syms(rd_s(st, r0), names.len()) {
            Err(Fault::BadSymbol)
        } else {
            then_s(st, ActionV::Print(value_pieces(rd_s(st, r0), names) + text("\n"@)))
        },
        Instr::Add { r0, r1, rd } => int_op_s(st, r0, r1, rd, |a: int, b: int| a + b),
        Instr::Sub { r0, r1, rd } => int_op_s(st, r0, r1, rd, |a: int, b: int| a - b),
        Instr::Mul { r0, r1, rd } => int_op_s(st, r0, r1, rd, |a: int, b: int| a * b),
        Instr::Div { r0, r1, rd } => match int_s(st, r0) {
            Err(e) => Err(e),
            Ok(a) => match int_s(st, r1) {
                Err(e) => Err(e),
                Ok(b) => if b == 0 {
                    Err(Fault::DivByZero)
                } else {
                    put_s(st, rd, ValueV::Int(trunc_div(a, b)))
                },
            },
        },
        Instr::Eq { r0, r1, rd } => if reg_ok(st, r0) && reg_ok(st, r1) {
            put_s(st, rd, ValueV::Bool(value_eq(rd_s(st, r0), rd_s(st, r1))))
        } else {
            Err(Fault::BadRegister)
        },
        Instr::Lt { r0, r1, rd } => match int_s(st, r0) {
            Err(e) => Err(e),
            Ok(a) => match int_s(st, r1) {
                Err(e) => Err(e),
                Ok(b) => put_s(st, rd, ValueV::Bool(a < b)),
            },
        },
        Instr::Not { r0, rd } => match bool_s(st, r0) {
            Err(e) => Err(e),
            Ok(b) => put_s(st, rd, ValueV::Bool(!b)),
        },
        Instr::Neg { r0, rd } => match int_s(st, r0) {
            Err(e) => Err(e),
            Ok(a) => put_s(st, rd, ValueV::Int(-a)),
        },
        Instr::FNeg { w, r0, rd } => if !reg_ok(st, r0) {
            Err(Fault::BadRegister)
        } else {
            match (w, rd_s(st, r0)) {
                (FloatTy::Float32, ValueV::Float32(b)) => put_s(
                    st,
                    rd,
                    ValueV::Float32(b ^ 0x8000_0000u32),
                ),
                (FloatTy::Float64, ValueV::Float64(b)) => put_s(
                    st,
                    rd,
                    ValueV::Float64(b ^ 0x8000_0000_0000_0000u64),
                ),
                _ => Err(Fault::NotFloat),
            }
        },
        Instr::Move { r0, rd } => if reg_ok(st, r0) {
            put_s(st, rd, rd_s(st, r0))
        } else {
            Err(Fault::BadRegister)
        },
        Instr::MakeArray { r0, rn, rd } => match range_s(st, r0, rn) {
            Err(e) => Err(e),
            Ok(vs) => put_s(st, rd, ValueV::Array(vs)),
        },
        Instr::Index { r0, r1, rd } => if !reg_ok(st, r0) {
            Err(Fault::BadRegister)
        } else {
            match rd_s(st, r0) {
                ValueV::Array(xs) => match int_s(st, r1) {
                    Err(e) => Err(e),
                    Ok(k) => if 0 <= k <= usize::MAX {
                        put_s(
                            st,
                            rd,
                            if k < xs.len() {
                                xs[k]
                            } else {
                                ValueV::Null
                            },
                        )
                    } else {
                        Err(Fault::BadIndex)
                    },
                },
                _ => Err(Fault::NotArray),
            }
        },
        Instr::MakeTuple { r0, rn, rd } => match range_s(st, r0, rn) {
            Err(e) => Err(e),
            Ok(vs) => put_s(st, rd, ValueV::Tuple(vs)),
        },
        Instr::MakeVariant { .. } => Err(Fault::Unsupported),
        Instr::Jump { addr } => Ok((goto_s(st, addr.0 as int), ActionV::Continue)),
        Instr::JumpIfTrue { r0, addr } => branch_s(st, r0, addr, true),
        Instr::JumpIfFalse { r0, addr } => branch_s(st, r0, addr, false),
        Instr::FAdd { w, r0, r1, rd } => float_s(st, w, FloatOp::Add, r0, r1, rd),
        Instr::FSub { w, r0, r1, rd } => float_s(st, w, FloatOp::Sub, r0, r1, rd),
        Instr::FMul { w, r0, r1, rd } => float_s(st, w, FloatOp::Mul, r0, r1, rd),
        Instr::FDiv { w, r0, r1, rd } => float_s(st, w, FloatOp::Div, r0, r1, rd),
        Instr::FLt { w, r0, r1, rd } => float_s(st, w, FloatOp::Div, r0, r1, rd),
        Instr::Call { func, rd } => if !reg_ok(st, func) {
            Err(Fault::BadRegister)
        } else {
            match rd_s(st, func) {
                ValueV::Func(f) => match push_frame_s(m, st, FuncId(f), func.0 + 1, rd) {
                    Err(e) => Err(e),
                    Ok(next) => Ok((next, ActionV::Continue)),
                },
                _ => Err(Fault::NotFunc),
            }
        },
    }
}

/// A conditional jump on a boolean register: `JumpIfTrue` goes to its
/// address when the register holds `true` and on to the next instruction
/// when it holds `false`; `JumpIfFalse` the other way round. Either way the
/// stack and the waiting frames stay as they were, and nothing is asked of
/// whoever runs the machine.
pub proof fn lemma_conditional_jumps(m: &Module, names: Seq<Seq<char>>, st: VmV, r0: Reg, addr: Addr, b: bool)
    requires
        slot(st, r0) < st.stack.len(),
        st.stack[st.current.base_idx + r0.0] == ValueV::Bool(b),
        st.current.pc < usize::MAX,
    ensures
        exec_s(m, names, st, Instr::JumpIfTrue { r0, addr }) matches Ok((s, a)) && a == ActionV::Continue
            && s.stack == st.stack && s.frames == st.frames && s.current.func == st.current.func
            && s.current.pc == (if b {
            addr.0 as int
        } else {
            st.current.pc + 1
        }),
        exec_s(m, names, st, Instr::JumpIfFalse { r0, addr }) matches Ok((s, a)) && a == ActionV::Continue
            && s.stack == st.stack && s.frames == st.frames && s.current.func == st.current.func
            && s.current.pc == (if b {
            st.current.pc + 1
        } else {
            addr.0 as int
        }),
{
}

/// The step writes `v` into register `rd` of the running frame, leaves the
/// other registers, the waiting frames and the running function as they
/// were, and moves on to the next instruction.
pub open spec fn wrote_next(st: VmV, r: Result<(VmV, ActionV), Fault>, rd: Reg, v: ValueV) -> bool {
    r matches Ok((s, a)) && a == ActionV::Continue && s.stack == st.stack.update(
        st.current.base_idx + rd.0,
        v,
    ) && s.frames == st.frames && s.current.func == st.current.func && s.current.base_idx
        == st.current.base_idx && s.current.pc == st.current.pc + 1
}

/// The integer instructions compute on the integers their registers hold:
/// `Add`, `Sub` and `Mul` the sum, difference and product, `Lt` whether the
/// first is smaller, `Div` the quotient of a non-negative number by a
/// positive one and a fault on a zero divisor, `Neg` the opposite; `Not`
/// gives the other boolean.
pub proof fn lemma_int_instructions(
    m: &Module,
    names: Seq<Seq<char>>,
    st: VmV,
    r0: Reg,
    r1: Reg,
    rd: Reg,
    a: int,
    b: int,
    c: bool,
)
    requires
        slot(st, r0) < st.stack.len(),
        slot(st, r1) < st.stack.len(),
        slot(st, rd) < st.stack.len(),
        st.stack[st.current.base_idx + r0.0] == ValueV::Int(a),
        st.stack[st.current.base_idx + r1.0] == ValueV::Int(b),
        st.current.pc < usize::MAX,
    ensures
        wrote_next(st, exec_s(m, names, st, Instr::Add { r0, r1, rd }), rd, ValueV::Int(a + b)),
        wrote_next(st, exec_s(m, names, st, Instr::Sub { r0, r1, rd }), rd, ValueV::Int(a - b)),
        wrote_next(st, exec_s(m, names, st, Instr::Mul { r0, r1, rd }), rd, ValueV::Int(a * b)),
        wrote_next(st, exec_s(m, names, st, Instr::Lt { r0, r1, rd }), rd, ValueV::Bool(a < b)),
        wrote_next(st, exec_s(m, names, st, Instr::Neg { r0, rd }), rd, ValueV::Int(-a)),
        0 <= a && 0 < b ==> wrote_next(st, exec_s(m, names, st, Instr::Div { r0, r1, rd }), rd, ValueV::Int(a / b)),
        b == 0 ==> exec_s(m, names, st, Instr::Div { r0, r1, rd }) == Err::<(VmV, ActionV), Fault>(Fault::DivByZero),
        wrote_next(
            wr_s(st, r0, ValueV::Bool(c)),
            exec_s(m, names, wr_s(st, r0, ValueV::Bool(c)), Instr::Not { r0, rd }),
            rd,
            ValueV::Bool(!c),
        ),
{
}

/// What one step of the machine does: fetch the running frame's next
/// instruction and run it.
pub open spec fn step_s(m: &Module, names: Seq<Seq<char>>, st: VmV) -> Result<(VmV, ActionV), Fault> {
    let f = st.current.func;
    if !has_func(m, f) {
        Err(Fault::NoFunction)
    } else if st.current.pc >= code_of(m, f).len() {
        Err(Fault::BadPc)
    } else if !is_known_opcode(get_opcode_spec(code_of(m, f)[st.current.pc as int].0)) {
        Err(Fault::UnknownOpcode)
    } else {
        exec_s(m, names, st, decode_spec(code_of(m, f)[st.current.pc as int].0))
    }
}

/// What a run of a step gave: where the model says the step fails, the same
/// fault and the state unchanged; else the state and the action it gives.
pub open spec fn outcome(
    before: VmV,
    after: VmV,
    r: Result<Action, Fault>,
    expected: Result<(VmV, ActionV), Fault>,
) -> bool {
    match expected {
        Ok((s, a)) => r matches Ok(x) && action_v(x) == a && after == s,
        Err(e) => r == Err::<Action, Fault>(e) && after == before,
    }
}

/// The machine: the module it runs, the names of its symbols, the stack of
/// registers, the frames of the calls waiting, and the frame running.
pub struct Vm<'a> {
    module: &'a Module,
    sym_table: &'a SymTable,
    stack: Vec<Value>,
    frames: Vec<CallFrame>,
    current: CallFrame,
}

impl<'a> Vm<'a> {
    /// The state of the machine, as values.
    pub closed spec fn state(&self) -> VmV {
        VmV { stack: values_v_of(self.stack@), frames: self.frames@, current: self.current }
    }

    /// The module the machine runs.
    pub closed spec fn module(&self) -> &'a Module {
        self.module
    }

    /// The names of the symbols.
    pub closed spec fn names(&self) -> Seq<Seq<char>> {
        self.sym_table@
    }

    /// A machine that has not started: an empty stack, no frame waiting.
    pub fn new(module: &'a Module, sym_table: &'a SymTable) -> (r: Self)
        ensures
            r.module() == module,
            r.names() == sym_table@,
            r.state() == (VmV {
                stack: Seq::empty(),
                frames: Seq::empty(),
                current: CallFrame { func: module.main, base_idx: 0, pc: 0, rd: Reg(0) },
            }),
    {
        let r = Vm {
            module,
            sym_table,
            stack: Vec::new(),
            frames: Vec::new(),
            current: CallFrame { func: module.main, base_idx: 0, pc: 0, rd: Reg(0) },
        };
        assert(r.state().stack =~= Seq::<ValueV>::empty());
        r
    }

    /// Starts a call of the module's main function.
    pub fn start(&mut self) -> (r: Result<(), Fault>)
        ensures
            final(self).module() == old(self).module(),
            final(self).names() == old(self).names(),
            match push_frame_s(old(self).module(), old(self).state(), old(self).module().main, 0, Reg(0)) {
                Ok(s) => r is Ok && final(self).state() == s,
                Err(e) => r == Err::<(), Fault>(e) && final(self).state() == old(self).state(),
            },
    {
        let main = self.module.main;
        self.push_frame(main, 0, Reg(0))
    }

    /// Runs one step (see `step_s`).
    pub fn step(&mut self) -> (r: Result<Action, Fault>)
        ensures
            final(self).module() == old(self).module(),
            final(self).names() == old(self).names(),
            outcome(
                old(self).state(),
                final(self).state(),
                r,
                step_s(old(self).module(), old(self).names(), old(self).state()),
            ),
    {
        let func = match self.module.funcs.get(&self.current.func.0) {
            Some(f) => f,
            None => return Err(Fault::NoFunction),
        };
        if self.current.pc >= func.chunk.code.len() {
            return Err(Fault::BadPc);
        }
        let enc = func.chunk.code[self.current.pc];
        if !enc.is_known() {
            return Err(Fault::UnknownOpcode);
        }
        let instr = Instr::decode(enc);
        self.exec(instr)
    }

    /// Writes the bits of the `f64` an operation handed out gave into `rd`
    /// and moves to the next instruction.
    pub fn complete_float(&mut self, rd: Reg, bits: u64) -> (r: Result<Action, Fault>)
        ensures
            final(self).module() == old(self).module(),
            final(self).names() == old(self).names(),
            outcome(
                old(self).state(),
                final(self).state(),
                r,
                put_s(old(self).state(), rd, ValueV::Float64(bits)),
            ),
    {
        self.put(rd, Value::new_f64(bits))
    }

    /// The stack position of register `r` of the running frame, where the
    /// stack holds it.
    fn slot(&self, r: Reg) -> (s: Option<usize>)
        ensures
            match s {
                Some(i) => reg_ok(self.state(), r) && i == slot(self.state(), r),
                None => !reg_ok(self.state(), r),
            },
    {
        let base = self.current.base_idx;
        let len = self.stack.len();
        if base < len && (r.0 as usize) < len - base {
            Some(base + r.0 as usize)
        } else {
            None
        }
    }

    fn read(&self, r: Reg) -> (v: Result<&Value, Fault>)
        ensures
            match v {
                Ok(x) => reg_ok(self.state(), r) && value_v(*x) == rd_s(self.state(), r),
                Err(e) => !reg_ok(self.state(), r) && e == Fault::BadRegister,
            },
    {
        match self.slot(r) {
            Some(i) => Ok(&self.stack[i]),
            None => Err(Fault::BadRegister),
        }
    }

    fn read_int(&self, r: Reg) -> (v: Result<Int, Fault>)
        ensures
            match int_s(self.state(), r) {
                Ok(i) => v matches Ok(x) && x.value() == i,
                Err(e) => v matches Err(f) && f == e,
            },
    {
        match self.read(r) {
            Ok(x) => match x {
                Value::Int(i) => Ok(i.copy()),
                _ => Err(Fault::NotInt),
            },
            Err(e) => Err(e),
        }
    }

    fn read_bool(&self, r: Reg) -> (v: Result<bool, Fault>)
        ensures
            v == bool_s(self.state(), r),
    {
        match self.read(r) {
            Ok(x) => match x {
                Value::Bool(b) => Ok(*b),
                _ => Err(Fault::NotBool),
            },
            Err(e) => Err(e),
        }
    }

    fn read_f64(&self, r: Reg) -> (v: Result<u64, Fault>)
        ensures
            v == f64_s(self.state(), r),
    {
        match self.read(r) {
            Ok(x) => match x {
                Value::Float64(b) => Ok(*b),
                _ => Err(Fault::NotFloat),
            },
            Err(e) => Err(e),
        }
    }

    /// Moves to the next instruction, asking `a`.
    fn next(&mut self, a: Action) -> (r: Result<Action, Fault>)
        ensures
            final(self).module() == old(self).module(),
            final(self).names() == old(self).names(),
            outcome(old(self).state(), final(self).state(), r, then_s(old(self).state(), action_v(a))),
    {
        if self.current.pc < usize::MAX {
            self.current.pc = self.current.pc + 1;
            Ok(a)
        } else {
            Err(Fault::Overflow)
        }
    }

    /// Writes `v` to `rd` and moves to the next instruction.
    fn put(&mut self, rd: Reg, v: Value) -> (r: Result<Action, Fault>)
        ensures
            final(self).module() == old(self).module(),
            final(self).names() == old(self).names(),
            outcome(old(self).state(), final(self).state(), r, put_s(old(self).state(), rd, value_v(v))),
    {
        match self.slot(rd) {
            Some(i) => {
                if self.current.pc == usize::MAX {
                    return Err(Fault::Overflow);
                }
                let ghost vv = value_v(v);
                self.stack.set(i, v);
                assert(values_v_of(self.stack@) =~= values_v_of(old(self).stack@).update(i as int, vv));
                self.next(Action::Continue)
            },
            None => Err(Fault::BadRegister),
        }
    }

    /// Starts a call of `f` (see `push_frame_s`).
    fn push_frame(&mut self, f: FuncId, offset: usize, rd: Reg) -> (r: Result<(), Fault>)
        ensures
            final(self).module() == old(self).module(),
            final(self).names() == old(self).names(),
            match push_frame_s(old(self).module(), old(self).state(), f, offset as int, rd) {
                Ok(s) => r is Ok && final(self).state() == s,
                Err(e) => r == Err::<(), Fault>(e) && final(self).state() == old(self).state(),
            },
    {
        let ss = match self.module.funcs.get(&f.0) {
            Some(func) => func.chunk.stack_size,
            None => return Err(Fault::NoFunction),
        };
        let base = self.current.base_idx;
        if base > usize::MAX - offset || base + offset > usize::MAX - ss {
            return Err(Fault::Overflow);
        }
        let nb = base + offset;
        let size = nb + ss;
        let ghost st = self.state();
        let ghost old_len = self.stack@.len();
        while self.stack.len() < size
            invariant
                old_len == old(self).stack@.len(),
                self.stack@.len() >= old_len,
                self.stack@.len() <= if size > old_len {
                    size as int
                } else {
                    old_len as int
                },
                values_v_of(self.stack@) == values_v_of(old(self).stack@) + Seq::new(
                    (self.stack@.len() - old_len) as nat,
                    |i: int| ValueV::Null,
                ),
                self.module == old(self).module,
                self.sym_table == old(self).sym_table,
                self.frames@ == old(self).frames@,
                self.current == old(self).current,
            decreases size - self.stack.len(),
        {
            let ghost before = values_v_of(self.stack@);
            self.stack.push(Value::Null);
            assert(value_v(Value::Null) == ValueV::Null);
            assert(values_v_of(self.stack@) =~= before.push(ValueV::Null));
            assert(values_v_of(self.stack@) =~= values_v_of(old(self).stack@) + Seq::new(
                (self.stack@.len() - old_len) as nat,
                |i: int| ValueV::Null,
            ));
        }
        let ghost grown = values_v_of(self.stack@);
        assert(grown =~= (if size > old_len {
            values_v_of(old(self).stack@) + Seq::new((size - old_len) as nat, |i: int| ValueV::Null)
        } else {
            values_v_of(old(self).stack@)
        }));
        self.frames.push(self.current);
        self.current = CallFrame { func: f, base_idx: nb, pc: 0, rd };
        Ok(())
    }

    /// Returns `v` from the running frame (see `return_s`).
    fn pop_frame(&mut self, v: Value) -> (r: Result<Action, Fault>)
        ensures
            final(self).module() == old(self).module(),
            final(self).names() == old(self).names(),
            outcome(old(self).state(), final(self).state(), r, return_s(old(self).state(), value_v(v))),
    {
        let n = self.frames.len();
        if n == 0 {
            return Err(Fault::NoFrame);
        }
        let rd = self.current.rd;
        let caller = self.frames[n - 1];
        let base = caller.base_idx;
        let len = self.stack.len();
        if !(base < len && (rd.0 as usize) < len - base) {
            return Err(Fault::BadRegister);
        }
        if n > 1 && caller.pc == usize::MAX {
            return Err(Fault::Overflow);
        }
        let ghost vv = value_v(v);
        self.frames.pop();
        self.current = caller;
        self.stack.set(base + rd.0 as usize, v);
        assert(values_v_of(self.stack@) =~= values_v_of(old(self).stack@).update(
            base + rd.0,
            vv,
        ));
        assert(self.frames@ =~= old(self).frames@.drop_last());
        if self.frames.len() == 0 {
            Ok(Action::Halt)
        } else {
            self.current.pc = self.current.pc + 1;
            Ok(Action::Continue)
        }
    }

    /// The values of registers `r0` up to `rn`, copied (see `range_s`).
    fn read_range(&self, r0: Reg, rn: Reg) -> (r: Result<Vec<Value>, Fault>)
        ensures
            match range_s(self.state(), r0, rn) {
                Ok(vs) => r matches Ok(x) && values_v_of(x@) == vs,
                Err(e) => r matches Err(f) && f == e,
            },
    {
        let base = self.current.base_idx;
        let len = self.stack.len();
        if !(r0.0 <= rn.0 && base <= len && (rn.0 as usize) <= len - base) {
            return Err(Fault::BadRange);
        }
        let start = base + r0.0 as usize;
        let end = base + rn.0 as usize;
        let mut out: Vec<Value> = Vec::new();
        let mut i = start;
        while i < end
            invariant
                start <= i <= end,
                end <= self.stack.len(),
                values_v_of(out@) == values_v_of(self.stack@).subrange(start as int, i as int),
            decreases end - i,
        {
            let v = self.stack[i].copy();
            let ghost before = values_v_of(out@);
            out.push(v);
            assert(values_v_of(out@) =~= before.push(value_v(v)));
            i = i + 1;
            assert(values_v_of(out@) =~= values_v_of(self.stack@).subrange(start as int, i as int));
        }
        Ok(out)
    }

    /// Runs instruction `i` (see `exec_s`).
    fn exec(&mut self, i: Instr) -> (r: Result<Action, Fault>)
        requires
            has_func(old(self).module(), old(self).state().current.func),
        ensures
            final(self).module() == old(self).module(),
            final(self).names() == old(self).names(),
            outcome(
                old(self).state(),
                final(self).state(),
                r,
                exec_s(old(self).module(), old(self).names(), old(self).state(), i),
            ),
    {
        match i {
            Instr::LoadUnit { .. } | Instr::LoadNull { .. } | Instr::LoadFalse { .. }
            | Instr::LoadTrue { .. } | Instr::LoadIntZero { .. } | Instr::LoadF32Zero { .. }
            | Instr::LoadF64Zero { .. } | Instr::Load { .. } | Instr::Move { .. } => self.exec_load(i),
            Instr::Add { .. } | Instr::Sub { .. } | Instr::Mul { .. } | Instr::Div { .. }
            | Instr::Lt { .. } | Instr::Neg { .. } | Instr::Not { .. } | Instr::Eq { .. } => self.exec_arith(i),
            Instr::Print { .. } | Instr::MakeArray { .. } | Instr::Index { .. }
            | Instr::MakeTuple { .. } | Instr::FNeg { .. } => self.exec_data(i),
            _ => self.exec_flow(i),
        }
    }

    /// Runs a load or a move.
    #[verifier::rlimit(60)]
    fn exec_load(&mut self, i: Instr) -> (r: Result<Action, Fault>)
        requires
            has_func(old(self).module(), old(self).state().current.func),
            i is LoadUnit || i is LoadNull || i is LoadFalse || i is LoadTrue || i is LoadIntZero || i is LoadF32Zero || i is LoadF64Zero || i is Load || i is Move,
        ensures
            final(self).module() == old(self).module(),
            final(self).names() == old(self).names(),
            outcome(
                old(self).state(),
                final(self).state(),
                r,
                exec_s(old(self).module(), old(self).names(), old(self).state(), i),
            ),
    {
        match i {
            Instr::LoadUnit { rd } => self.put(rd, Value::new_unit()),
            Instr::LoadNull { rd } => self.put(rd, Value::new_null()),
            Instr::LoadFalse { rd } => self.put(rd, Value::new_bool(false)),
            Instr::LoadTrue { rd } => self.put(rd, Value::new_bool(true)),
            Instr::LoadIntZero { rd } => self.put(rd, Value::new_int(Int::zero())),
            Instr::LoadF32Zero { rd } => self.put(rd, Value::new_f32(0)),
            Instr::LoadF64Zero { rd } => self.put(rd, Value::new_f64(0)),
            Instr::Load { rd, imm } => {
                let func = self.module.funcs.get(&self.current.func.0).unwrap();
                if (imm.0 as usize) < func.chunk.constants.len() {
                    let v = func.chunk.constants[imm.0 as usize].copy();
                    self.put(rd, v)
                } else {
                    Err(Fault::BadConstant)
                }
            },
            Instr::Move { r0, rd } => {
                let v = match self.read(r0) {
                    Ok(x) => x.copy(),
                    Err(e) => return Err(e),
                };
                self.put(rd, v)
            },
            _ => {
                assert(false);
                Err(Fault::Unsupported)
            },
        }
    }

    /// Runs an operation on integers or booleans, or a comparison.
    #[verifier::rlimit(60)]
    fn exec_arith(&mut self, i: Instr) -> (r: Result<Action, Fault>)
        requires
            has_func(old(self).module(), old(self).state().current.func),
            i is Add || i is Sub || i is Mul || i is Div || i is Lt || i is Neg || i is Not || i is Eq,
        ensures
            final(self).module() == old(self).module(),
            final(self).names() == old(self).names(),
            outcome(
                old(self).state(),
                final(self).state(),
                r,
                exec_s(old(self).module(), old(self).names(), old(self).state(), i),
            ),
    {
        match i {
            Instr::Add { r0, r1, rd } => {
                let a = match self.read_int(r0) {
                    Ok(x) => x,
                    Err(e) => return Err(e),
                };
                let b = match self.read_int(r1) {
                    Ok(x) => x,
                    Err(e) => return Err(e),
                };
                self.put(rd, Value::new_int(int_add(&a, &b)))
            },
            Instr::Sub { r0, r1, rd } => {
                let a = match self.read_int(r0) {
                    Ok(x) => x,
                    Err(e) => return Err(e),
                };
                let b = match self.read_int(r1) {
                    Ok(x) => x,
                    Err(e) => return Err(e),
                };
                self.put(rd, Value::new_int(int_sub(&a, &b)))
            },
            Instr::Mul { r0, r1, rd } => {
                let a = match self.read_int(r0) {
                    Ok(x) => x,
                    Err(e) => return Err(e),
                };
                let b = match self.read_int(r1) {
                    Ok(x) => x,
                    Err(e) => return Err(e),
                };
                self.put(rd, Value::new_int(int_mul(&a, &b)))
            },
            Instr::Div { r0, r1, rd } => {
                let a = match self.read_int(r0) {
                    Ok(x) => x,
                    Err(e) => return Err(e),
                };
                let b = match self.read_int(r1) {
                    Ok(x) => x,
                    Err(e) => return Err(e),
                };
                if crate::vm::bigint::int_eq(&b, &Int::zero()) {
                    return Err(Fault::DivByZero);
                }
                self.put(rd, Value::new_int(int_div(&a, &b)))
            },
            Instr::Eq { r0, r1, rd } => {
                let e = match (self.read(r0), self.read(r1)) {
                    (Ok(x), Ok(y)) => x.equals(y),
                    _ => return Err(Fault::BadRegister),
                };
                self.put(rd, Value::new_bool(e))
            },
            Instr::Lt { r0, r1, rd } => {
                let a = match self.read_int(r0) {
                    Ok(x) => x,
                    Err(e) => return Err(e),
                };
                let b = match self.read_int(r1) {
                    Ok(x) => x,
                    Err(e) => return Err(e),
                };
                self.put(rd, Value::new_bool(int_lt(&a, &b)))
            },
            Instr::Not { r0, rd } => match self.read_bool(r0) {
                Ok(b) => self.put(rd, Value::new_bool(!b)),
                Err(e) => Err(e),
            },
            Instr::Neg { r0, rd } => match self.read_int(r0) {
                Ok(a) => self.put(rd, Value::new_int(int_neg(&a))),
                Err(e) => Err(e),
            },
            _ => {
                assert(false);
                Err(Fault::Unsupported)
            },
        }
    }

    /// Runs a print, an array or tuple, an index or a float negation.
    #[verifier::rlimit(60)]
    fn exec_data(&mut self, i: Instr) -> (r: Result<Action, Fault>)
        requires
            has_func(old(self).module(), old(self).state().current.func),
            i is Print || i is MakeArray || i is Index || i is MakeTuple || i is FNeg,
        ensures
            final(self).module() == old(self).module(),
            final(self).names() == old(self).names(),
            outcome(
                old(self).state(),
                final(self).state(),
                r,
                exec_s(old(self).module(), old(self).names(), old(self).state(), i),
            ),
    {
        match i {
            Instr::Print { r0 } => {
                let x = match self.read(r0) {
                    Ok(x) => x,
                    Err(e) => return Err(e),
                };
                if !x.syms_within(self.sym_table.size()) {
                    return Err(Fault::BadSymbol);
                }
                let mut pieces = x.display_ctx(self.sym_table);
                let mut nl = String::new();
                crate::text::push_str(&mut nl, "\n");
                let ghost before = pieces_v(pieces@);
                pieces.push(Piece::Text(nl));
                assert(pieces_v(pieces@) =~= before + text("\n"@));
                self.next(Action::Print(pieces))
            },
            Instr::FNeg { w, r0, rd } => {
                let v = match self.read(r0) {
                    Ok(x) => match (w, x) {
                        (FloatTy::Float32, Value::Float32(b)) => Value::new_f32(*b ^ 0x8000_0000u32),
                        (FloatTy::Float64, Value::Float64(b)) => Value::new_f64(
                            *b ^ 0x8000_0000_0000_0000u64,
                        ),
                        _ => return Err(Fault::NotFloat),
                    },
                    Err(e) => return Err(e),
                };
                self.put(rd, v)
            },
            Instr::MakeArray { r0, rn, rd } => match self.read_range(r0, rn) {
                Ok(vs) => {
                    let v = Value::new_array(vs);
                    proof {
                        assert(values_v(vs) =~= values_v_of(vs@));
                    }
                    self.put(rd, v)
                },
                Err(e) => Err(e),
            },
            Instr::Index { r0, r1, rd } => {
                let x = match self.read(r0) {
                    Ok(x) => x,
                    Err(e) => return Err(e),
                };
                let xs = match x {
                    Value::Array(xs) => xs,
                    _ => return Err(Fault::NotArray),
                };
                let k = match self.read_int(r1) {
                    Ok(k) => k,
                    Err(e) => return Err(e),
                };
                let idx = match int_to_usize(&k) {
                    Some(idx) => idx,
                    None => return Err(Fault::BadIndex),
                };
                let v = if idx < xs.len() {
                    xs[idx].copy()
                } else {
                    Value::new_null()
                };
                proof {
                    assert(values_v(*xs).len() == xs@.len());
                }
                self.put(rd, v)
            },
            Instr::MakeTuple { r0, rn, rd } => match self.read_range(r0, rn) {
                Ok(vs) => {
                    let v = Value::new_tuple(vs);
                    proof {
                        assert(values_v(vs) =~= values_v_of(vs@));
                    }
                    self.put(rd, v)
                },
                Err(e) => Err(e),
            },
            _ => {
                assert(false);
                Err(Fault::Unsupported)
            },
        }
    }

    /// Runs a return, a jump, a call or a float operation.
    #[verifier::rlimit(60)]
    fn exec_flow(&mut self, i: Instr) -> (r: Result<Action, Fault>)
        requires
            has_func(old(self).module(), old(self).state().current.func),
            !(i is LoadUnit || i is LoadNull || i is LoadFalse || i is LoadTrue || i is LoadIntZero || i is LoadF32Zero || i is LoadF64Zero || i is Load || i is Move || i is Add || i is Sub || i is Mul || i is Div || i is Lt || i is Neg || i is Not || i is Eq || i is Print || i is MakeArray || i is Index || i is MakeTuple || i is FNeg),
        ensures
            final(self).module() == old(self).module(),
            final(self).names() == old(self).names(),
            outcome(
                old(self).state(),
                final(self).state(),
                r,
                exec_s(old(self).module(), old(self).names(), old(self).state(), i),
            ),
    {
        match i {
            Instr::Return { r0 } => {
                let v = match self.read(r0) {
                    Ok(x) => x.copy(),
                    Err(e) => return Err(e),
                };
                self.pop_frame(v)
            },
            Instr::MakeVariant { .. } => Err(Fault::Unsupported),
            Instr::Jump { addr } => {
                self.current.pc = addr.0 as usize;
                Ok(Action::Continue)
            },
            Instr::JumpIfTrue { r0, addr } => match self.read_bool(r0) {
                Ok(b) => if b {
                    self.current.pc = addr.0 as usize;
                    Ok(Action::Continue)
                } else {
                    self.next(Action::Continue)
                },
                Err(e) => Err(e),
            },
            Instr::JumpIfFalse { r0, addr } => match self.read_bool(r0) {
                Ok(b) => if !b {
                    self.current.pc = addr.0 as usize;
                    Ok(Action::Continue)
                } else {
                    self.next(Action::Continue)
                },
                Err(e) => Err(e),
            },
            Instr::FAdd { w, r0, r1, rd } => self.float_op(w, FloatOp::Add, r0, r1, rd),
            Instr::FSub { w, r0, r1, rd } => self.float_op(w, FloatOp::Sub, r0, r1, rd),
            Instr::FMul { w, r0, r1, rd } => self.float_op(w, FloatOp::Mul, r0, r1, rd),
            Instr::FDiv { w, r0, r1, rd } => self.float_op(w, FloatOp::Div, r0, r1, rd),
            Instr::FLt { w, r0, r1, rd } => self.float_op(w, FloatOp::Div, r0, r1, rd),
            Instr::Call { func, rd } => {
                let f = match self.read(func) {
                    Ok(x) => match x {
                        Value::Func(f) => *f,
                        _ => return Err(Fault::NotFunc),
                    },
                    Err(e) => return Err(e),
                };
                match self.push_frame(f, func.0 as usize + 1, rd) {
                    Ok(()) => Ok(Action::Continue),
                    Err(e) => Err(e),
                }
            },
            _ => {
                assert(false);
                Err(Fault::Unsupported)
            },
        }
    }

    /// Hands out a float operation on registers `r0` and `r1` (see
    /// `float_s`).
    fn float_op(&mut self, w: FloatTy, op: FloatOp, r0: Reg, r1: Reg, rd: Reg) -> (r: Result<
        Action,
        Fault,
    >)
        ensures
            final(self).module() == old(self).module(),
            final(self).names() == old(self).names(),
            outcome(old(self).state(), final(self).state(), r, float_s(old(self).state(), w, op, r0, r1, rd)),
    {
        if w == FloatTy::Float32 {
            return Err(Fault::Float32Op);
        }
        let a = match self.read_f64(r0) {
            Ok(x) => x,
            Err(e) => return Err(e),
        };
        let b = match self.read_f64(r1) {
            Ok(x) => x,
            Err(e) => return Err(e),
        };
        Ok(Action::Float { op, lhs: a, rhs: b, rd })
    }
}

} // verus!
