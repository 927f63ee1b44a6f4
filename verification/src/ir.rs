//! The typed intermediate form that lowering produces, and the errors that
//! lowering reports.
use vstd::prelude::*;

use crate::ast::{binop_text, BinOp as AstBinOp};
use crate::span::Span;
use crate::text::push_str;
use crate::types::ty::{ty_text, Ty, TyTree};

verus! {

/// An arithmetic operation of the intermediate form.
#[derive(Clone, Copy, PartialEq, Eq, Structural, Hash, Debug)]
pub enum BinOpKind {
    Add,
    Sub,
    Mul,
    Div,
}

pub struct BinOp {
    pub op: BinOpKind,
    pub lhs: Box<Expr>,
    pub rhs: Box<Expr>,
}

/// An expression together with its type.
pub struct Expr {
    pub kind: ExprKind,
    pub ty: Ty,
}

pub enum ExprKind {
    Lit(Lit),
    Var(VarId),
    BinOp(BinOp),
    Call(Call),
}

#[derive(Clone, Copy, PartialEq, Eq, Structural, Debug)]
pub struct VarId(pub u32);

pub struct Call {
    pub func: VarId,
    pub args: Vec<Expr>,
}

/// A literal value.
#[derive(Clone, PartialEq, Eq, Debug)]
pub enum Lit {
    Null,
    Bool(bool),
    UInt8(u8),
    UInt16(u16),
    UInt32(u32),
    UInt64(u64),
    UInt(u64),
    Int8(i8),
    Int16(i16),
    Int32(i32),
    Int64(i64),
    Int(i64),
    Str(String),
}

pub struct Program {
    pub expr: Expr,
}

/// What a literal holds, its text taken as characters.
pub enum LitV {
    Null,
    Bool(bool),
    UInt8(u8),
    UInt16(u16),
    UInt32(u32),
    UInt64(u64),
    UInt(u64),
    Int8(i8),
    Int16(i16),
    Int32(i32),
    Int64(i64),
    Int(i64),
    Str(Seq<char>),
}

pub open spec fn lit_v(l: Lit) -> LitV {
    match l {
        Lit::Null => LitV::Null,
        Lit::Bool(b) => LitV::Bool(b),
        Lit::UInt8(v) => LitV::UInt8(v),
        Lit::UInt16(v) => LitV::UInt16(v),
        Lit::UInt32(v) => LitV::UInt32(v),
        Lit::UInt64(v) => LitV::UInt64(v),
        Lit::UInt(v) => LitV::UInt(v),
        Lit::Int8(v) => LitV::Int8(v),
        Lit::Int16(v) => LitV::Int16(v),
        Lit::Int32(v) => LitV::Int32(v),
        Lit::Int64(v) => LitV::Int64(v),
        Lit::Int(v) => LitV::Int(v),
        Lit::Str(s) => LitV::Str(s@),
    }
}

/// What an expression of the intermediate form is, with the types as trees.
pub enum ExprV {
    Lit(LitV, TyTree),
    Var(u32, TyTree),
    BinOp(BinOpKind, Box<ExprV>, Box<ExprV>, TyTree),
    Call(u32, Seq<ExprV>, TyTree),
}

pub open spec fn expr_v(e: Expr) -> ExprV
    decreases e,
{
    match e.kind {
        ExprKind::Lit(l) => ExprV::Lit(lit_v(l), e.ty@),
        ExprKind::Var(v) => ExprV::Var(v.0, e.ty@),
        ExprKind::BinOp(b) => ExprV::BinOp(b.op, Box::new(expr_v(*b.lhs)), Box::new(expr_v(*b.rhs)), e.ty@),
        ExprKind::Call(c) => ExprV::Call(
            c.func.0,
            Seq::new(
                c.args@.len(),
                |i: int|
                    if 0 <= i < c.args@.len() {
                        expr_v(c.args@[i])
                    } else {
                        ExprV::Var(0, TyTree::Never)
                    },
            ),
            e.ty@,
        ),
    }
}

/// What went wrong while lowering.
pub enum ErrorKind {
    MismatchedType { expected: String, got: String },
    Other(String),
}

pub struct Error {
    pub kind: ErrorKind,
    pub span: Span,
}

/// An error's message parts, as characters.
pub enum ErrorKindV {
    MismatchedType(Seq<char>, Seq<char>),
    Other(Seq<char>),
}

pub open spec fn error_v(e: Error) -> (ErrorKindV, Span) {
    (
        match e.kind {
            ErrorKind::MismatchedType { expected, got } => ErrorKindV::MismatchedType(expected@, got@),
            ErrorKind::Other(m) => ErrorKindV::Other(m@),
        },
        e.span,
    )
}

/// The message of an operation that no type implements.
pub open spec fn binop_msg(op: AstBinOp, lhs: TyTree, rhs: TyTree) -> Seq<char> {
    "no implementation for "@ + ty_text(lhs, Seq::empty()) + " "@ + ty_text(rhs, Seq::empty()) + " "@
        + binop_text(op)
}

impl Error {
    /// A value of type `got` where `expected` was asked for.
    pub fn new_type_mismatch(expected: &Ty, got: &Ty, span: Span) -> (r: Self)
        ensures
            error_v(r) == (
                ErrorKindV::MismatchedType(ty_text(expected@, Seq::empty()), ty_text(got@, Seq::empty())),
                span,
            ),
    {
        let kind = ErrorKind::MismatchedType { expected: expected.to_string(), got: got.to_string() };
        Self { kind, span }
    }

    /// An operation that no type implements on these operand types.
    pub fn new_binop(op: AstBinOp, lhs: &Ty, rhs: &Ty, span: Span) -> (r: Self)
        ensures
            error_v(r) == (ErrorKindV::Other(binop_msg(op, lhs@, rhs@)), span),
    {
        let mut msg = String::new();
        push_str(&mut msg, "no implementation for ");
        push_str(&mut msg, lhs.to_string().as_str());
        push_str(&mut msg, " ");
        push_str(&mut msg, rhs.to_string().as_str());
        push_str(&mut msg, " ");
        push_str(&mut msg, op.to_string().as_str());
        assert(msg@ =~= binop_msg(op, lhs@, rhs@));
        Self { kind: ErrorKind::Other(msg), span }
    }

    /// Any other error, with its message.
    pub fn new_other(msg: &str, span: Span) -> (r: Self)
        ensures
            error_v(r) == (ErrorKindV::Other(msg@), span),
    {
        Self { kind: ErrorKind::Other(msg.to_owned()), span }
    }
}

} // verus!
