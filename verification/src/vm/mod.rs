//! The virtual machine: its instructions, values, code and modules, the
//! machine that runs them, and where a running program's output goes.
use vstd::prelude::*;

pub mod bigint;
pub mod chunk;
pub mod instr;
pub mod machine;
pub mod module;
pub mod value;

pub use machine::{Action, CallFrame, Fault, FloatOp, Vm};

verus! {

/// Where a running program's output goes.
pub trait OutputSink {
    fn emit(&mut self, text: &str);

    fn emit_err(&mut self, text: &str);
}

} // verus!
