//! Compiling a checked program: where it starts, and the errors of
//! compiling to bytecode.
use vstd::prelude::*;

use crate::ast::{Func, Program, Symbol};
use crate::ast::sexpr::program_syms;
use crate::interner::{Index, SymTable};

verus! {

/// The name of the function at position `i`.
pub open spec fn func_name(funcs: Seq<Func>, names: Seq<Seq<char>>, i: int) -> Seq<char> {
    names[funcs[i].name.sym.index_of() as int]
}

/// Whether `r` is the position of the first function named `main`, or
/// `None` where no function has that name.
pub open spec fn is_main_index(funcs: Seq<Func>, names: Seq<Seq<char>>, r: Option<usize>) -> bool {
    match r {
        Some(i) => {
            &&& i < funcs.len()
            &&& func_name(funcs, names, i as int) == "main"@
            &&& forall|j: int| 0 <= j < i ==> func_name(funcs, names, j) != "main"@
        },
        None => forall|j: int| 0 <= j < funcs.len() ==> func_name(funcs, names, j) != "main"@,
    }
}

/// Only one answer is the position of the first function named `main`.
pub proof fn lemma_main_index_unique(funcs: Seq<Func>, names: Seq<Seq<char>>, a: Option<usize>, b: Option<usize>)
    requires
        is_main_index(funcs, names, a),
        is_main_index(funcs, names, b),
    ensures
        a == b,
{
    match (a, b) {
        (Some(i), Some(j)) => {
            if i < j {
                assert(func_name(funcs, names, i as int) != "main"@);
            } else if j < i {
                assert(func_name(funcs, names, j as int) != "main"@);
            }
        },
        (Some(i), None) => {
            assert(func_name(funcs, names, i as int) != "main"@);
        },
        (None, Some(j)) => {
            assert(func_name(funcs, names, j as int) != "main"@);
        },
        _ => {},
    }
}

/// The position of the first function named `main`, where the program
/// starts; `None` if there is none.
pub fn find_main(program: &Program, sym_table: &SymTable) -> (r: Option<usize>)
    requires
        program_syms(*program, sym_table@.len()),
    ensures
        is_main_index(program.funcs@, sym_table@, r),
{
    let target = "main".to_owned();
    let mut i: usize = 0;
    while i < program.funcs.len()
        invariant
            i <= program.funcs.len(),
            target@ == "main"@,
            program_syms(*program, sym_table@.len()),
            forall|j: int| 0 <= j < i ==> func_name(program.funcs@, sym_table@, j) != "main"@,
        decreases program.funcs.len() - i,
    {
        proof {
            assert(crate::ast::sexpr::func_syms(program.funcs@[i as int], sym_table@.len()));
        }
        let sym: Symbol = program.funcs[i].name.sym;
        let name = sym_table.get_str(sym).to_owned();
        if name == target {
            return Some(i);
        }
        i = i + 1;
    }
    None
}

#[derive(Debug)]
pub enum CompilerError {
    InvalidLiteral,
    UndefinedName(Box<str>),
    Arity { exp: usize, act: usize },
    TypeError(String),
}

/// The message of an error of compilation.
pub open spec fn compiler_error_text(e: CompilerError) -> Seq<char> {
    match e {
        CompilerError::InvalidLiteral => "invalid literal"@,
        CompilerError::UndefinedName(name) => "cannot find name `"@ + name@ + "`"@,
        CompilerError::Arity { exp, act } => "expected "@ + crate::text::decimal(exp as nat)
            + " arguments, got "@ + crate::text::decimal(act as nat),
        CompilerError::TypeError(msg) => msg@,
    }
}

impl CompilerError {
    /// The error's message.
    pub fn to_string(&self) -> (s: String)
        ensures
            s@ == compiler_error_text(*self),
    {
        let mut s = String::new();
        match self {
            CompilerError::InvalidLiteral => crate::text::push_str(&mut s, "invalid literal"),
            CompilerError::UndefinedName(name) => {
                crate::text::push_str(&mut s, "cannot find name `");
                crate::text::push_str(&mut s, name);
                crate::text::push_str(&mut s, "`");
            },
            CompilerError::Arity { exp, act } => {
                crate::text::push_str(&mut s, "expected ");
                crate::text::push_decimal(&mut s, *exp as u64);
                crate::text::push_str(&mut s, " arguments, got ");
                crate::text::push_decimal(&mut s, *act as u64);
            },
            CompilerError::TypeError(msg) => crate::text::push_str(&mut s, msg.as_str()),
        }
        s
    }
}

} // verus!
