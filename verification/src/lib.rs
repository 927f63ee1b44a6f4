//! A small statically typed scripting language: its lexer and parser, name
//! resolution, type inference and checking, lowering to a typed
//! intermediate form, diagnostics, string literals,
//! and the register machine that runs its code: instructions and their
//! encoding, values, chunks of code and the machine itself.
use vstd::prelude::*;

pub mod ast;
pub mod bytecode;
pub mod compile;
pub mod diagnostics;
pub mod driver;
pub mod escape;
pub mod interner;
pub mod ir;
pub mod lexer;
pub mod lower;
pub mod name_resolution;
pub mod parser;
pub mod span;
pub mod text;
pub mod typecheck;
pub mod types;
pub mod util;
pub mod vm;

verus! {
} // verus!
