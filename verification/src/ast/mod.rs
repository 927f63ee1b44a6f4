//! The syntax tree: programs, functions, blocks, statements, expressions and
//! written types.
use vstd::prelude::*;

use crate::diagnostics::ErrGuaranteed;
use crate::interner::Index;
use crate::span::{Span, Spanned};

pub mod sexpr;

verus! {

/// Identifies a node of the syntax tree.
#[derive(Copy, Clone, PartialEq, Eq, Structural, Debug, Hash)]
pub struct NodeId(pub u32);

#[derive(Clone, Copy, PartialEq, Eq, Structural, Debug)]
pub enum Mutability {
    Mut,
    Not,
}

pub type Stmt = Spanned<StmtKind>;

pub type Expr = Spanned<ExprKind>;

/// A type as written in the source.
pub type Ty = Spanned<TyKind>;

#[derive(Debug)]
pub struct Program {
    pub funcs: Vec<Func>,
}

#[derive(Debug)]
pub struct Func {
    pub name: Ident,
    pub ty_params: Vec<Ident>,
    pub params: Vec<(Ident, Ty)>,
    pub ret: Option<Ty>,
    pub body: Block,
}

#[derive(Debug)]
pub struct Block {
    pub stmts: Vec<Stmt>,
    pub tail: Option<Box<Expr>>,
}

#[derive(Debug)]
pub enum StmtKind {
    Expr(Box<Expr>),
    Let(Ident, Option<Box<Ty>>, Box<Expr>, Mutability),
    Assign(Ident, Box<Expr>),
}

#[derive(Debug)]
pub enum ExprKind {
    Lit(Lit),
    Var(Ident),
    Unary(UnaryOp, Box<Expr>, Span),
    Binary(BinOp, Box<Expr>, Box<Expr>, Span),
    Call(Box<Expr>, Vec<Expr>, Span),
    Grouped(Box<Expr>),
    Array(Vec<Expr>),
    Index(Box<Expr>, Box<Expr>),
    If { cond: Box<Expr>, then: Box<Expr>, els: Option<Box<Expr>> },
    Block(Block),
}

#[derive(Debug)]
pub enum TyKind {
    Infer,
    Var(Ident),
    Nullable(Box<Ty>),
    Array(Box<Ty>),
    Tuple(Vec<Ty>),
}

#[derive(Clone, Copy, PartialEq, Eq, Structural, Debug)]
pub enum UnaryOp {
    Not,
    Negate,
}

#[derive(Clone, Copy, PartialEq, Eq, Debug)]
pub enum Lit {
    Null,
    Bool(bool),
    Int(Symbol),
    Float(Symbol),
    Str(Symbol),
    Error(ErrGuaranteed),
}

#[derive(Clone, Copy, PartialEq, Eq, Structural, Debug)]
pub enum BinOp {
    Add,
    Sub,
    Mul,
    Div,
    Eq,
    NotEq,
    Lt,
    LtEq,
    Gt,
    GtEq,
}

/// A name at a place in the source.
#[derive(Clone, Copy, Debug)]
pub struct Ident {
    pub id: NodeId,
    pub sym: Symbol,
    pub span: Span,
}

/// An interned string.
#[derive(Clone, Copy, PartialEq, Eq, Structural, Debug, Hash)]
pub struct Symbol(u32);

impl Index for Symbol {
    closed spec fn index_of(self) -> nat {
        self.0 as nat
    }

    open spec fn fits(index: nat) -> bool {
        index <= u32::MAX
    }

    fn from_usize(index: usize) -> (r: Self) {
        Self(index as u32)
    }

    fn into_usize(self) -> (r: usize) {
        self.0 as usize
    }
}

/// The operator's text.
pub open spec fn binop_text(op: BinOp) -> Seq<char> {
    match op {
        BinOp::Add => "+"@,
        BinOp::Sub => "-"@,
        BinOp::Mul => "*"@,
        BinOp::Div => "/"@,
        BinOp::Eq => "=="@,
        BinOp::NotEq => "!="@,
        BinOp::Lt => "<"@,
        BinOp::LtEq => "<="@,
        BinOp::Gt => ">"@,
        BinOp::GtEq => ">="@,
    }
}

/// The operator's text.
pub open spec fn unaryop_text(op: UnaryOp) -> Seq<char> {
    match op {
        UnaryOp::Not => "!"@,
        UnaryOp::Negate => "-"@,
    }
}

impl UnaryOp {
    /// The operator's text.
    pub fn to_string(&self) -> (s: String)
        ensures
            s@ == unaryop_text(*self),
    {
        let t = match self {
            UnaryOp::Not => "!",
            UnaryOp::Negate => "-",
        };
        let mut s = String::new();
        crate::text::push_str(&mut s, t);
        s
    }
}

impl BinOp {
    /// The operator's text.
    pub fn to_string(&self) -> (s: String)
        ensures
            s@ == binop_text(*self),
    {
        let t = match self {
            BinOp::Add => "+",
            BinOp::Sub => "-",
            BinOp::Mul => "*",
            BinOp::Div => "/",
            BinOp::Eq => "==",
            BinOp::NotEq => "!=",
            BinOp::Lt => "<",
            BinOp::LtEq => "<=",
            BinOp::Gt => ">",
            BinOp::GtEq => ">=",
        };
        let mut s = String::new();
        crate::text::push_str(&mut s, t);
        s
    }
}

} // verus!
