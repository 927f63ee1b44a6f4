//! Lowering: from the syntax tree of a program's `main` to the typed
//! intermediate form. It handles literals (`null` and integers) and the four
//! arithmetic operations on `int32` and `uint64`, checking each against the
//! type that its context expects.
use vstd::prelude::*;

use crate::ast::sexpr::program_syms;
use crate::ast::{BinOp as AstBinOp, Expr as AstExpr, ExprKind as AstExprKind, Lit as AstLit, Program as AstProgram};
use crate::compile::{find_main, is_main_index};
use crate::interner::{Index, SymTable};
use crate::ir::{
    binop_msg, error_v, expr_v, BinOp, BinOpKind, Error, ErrorKindV, Expr, ExprKind, ExprV, Lit, LitV,
    Program,
};
use crate::span::Span;
use crate::types::ty::{ty_eq, ty_text, IntTy, Ty, TyTree, UIntTy};
use crate::types::ty_ctx::TyCtx;
use crate::types::ty_interners::opt;

verus! {

/// A non-empty string of decimal digits.
pub open spec fn all_digits(s: Seq<char>) -> bool {
    &&& s.len() > 0
    &&& forall|i: int| 0 <= i < s.len() ==> '0' <= #[trigger] s[i] <= '9'
}

/// The number that a string of decimal digits spells.
pub open spec fn digits_value(s: Seq<char>) -> nat
    decreases s.len(),
{
    if s.len() == 0 {
        0
    } else {
        digits_value(s.drop_last()) * 10 + ((s.last() as u32) - 48) as nat
    }
}

/// Calls `str::parse::<i8>`: on decimal digits it gives the number they
/// spell where that fits in `i8`, and an error where it does not.
#[verifier::external_body]
fn parse_i8(raw: &str) -> (r: Option<i8>)
    requires
        all_digits(raw@),
    ensures
        match r {
            Some(v) => v as int == digits_value(raw@),
            None => digits_value(raw@) > i8::MAX,
        },
{
    raw.parse::<i8>().ok()
}

/// Calls `str::parse::<i32>`: on decimal digits it gives the number they
/// spell where that fits in `i32`, and an error where it does not.
#[verifier::external_body]
fn parse_i32(raw: &str) -> (r: Option<i32>)
    requires
        all_digits(raw@),
    ensures
        match r {
            Some(v) => v as int == digits_value(raw@),
            None => digits_value(raw@) > i32::MAX,
        },
{
    raw.parse::<i32>().ok()
}

/// The view of an optional type.
pub open spec fn opt_ty(t: Option<Ty>) -> Option<TyTree> {
    match t {
        Some(t) => Some(t@),
        None => None,
    }
}

/// The type of a lowered expression.
pub open spec fn ty_of(e: ExprV) -> TyTree {
    match e {
        ExprV::Lit(_, t) => t,
        ExprV::Var(_, t) => t,
        ExprV::BinOp(_, _, _, t) => t,
        ExprV::Call(_, _, t) => t,
    }
}

/// The error of a value of type `got` where `expect` asks for another.
pub open spec fn check_s(expect: Option<TyTree>, got: TyTree, span: Span) -> Option<(ErrorKindV, Span)> {
    match expect {
        Some(t) => if t == got {
            None
        } else {
            Some((ErrorKindV::MismatchedType(ty_text(t, Seq::empty()), ty_text(got, Seq::empty())), span))
        },
        None => None,
    }
}

/// An integer literal is `int8` where that is expected, and `int32`
/// otherwise; `null` is the nullable never type.
pub open spec fn lit_s(lit: AstLit, expect: Option<TyTree>, names: Seq<Seq<char>>) -> (LitV, TyTree) {
    match lit {
        AstLit::Int(sym) => {
            let v = digits_value(names[sym.index_of() as int]);
            if expect == Some(TyTree::Int(IntTy::Int8)) {
                (LitV::Int8(v as i8), TyTree::Int(IntTy::Int8))
            } else {
                (LitV::Int32(v as i32), TyTree::Int(IntTy::Int32))
            }
        },
        _ => (LitV::Null, opt(TyTree::Never)),
    }
}

/// The literals that lowering handles: `null`, and integers whose digits
/// fit the type they are given.
pub open spec fn lit_ok(lit: AstLit, expect: Option<TyTree>, names: Seq<Seq<char>>) -> bool {
    match lit {
        AstLit::Null => true,
        AstLit::Int(sym) => {
            &&& sym.index_of() < names.len()
            &&& all_digits(names[sym.index_of() as int])
            &&& if expect == Some(TyTree::Int(IntTy::Int8)) {
                digits_value(names[sym.index_of() as int]) <= i8::MAX
            } else {
                digits_value(names[sym.index_of() as int]) <= i32::MAX
            }
        },
        _ => false,
    }
}

pub open spec fn lower_lit_s(lit: AstLit, span: Span, expect: Option<TyTree>, names: Seq<Seq<char>>) -> Result<
    ExprV,
    (ErrorKindV, Span),
> {
    let (l, t) = lit_s(lit, expect, names);
    match check_s(expect, t, span) {
        Some(e) => Err(e),
        None => Ok(ExprV::Lit(l, t)),
    }
}

/// The four arithmetic operations.
pub open spec fn is_math(op: AstBinOp) -> bool {
    op == AstBinOp::Add || op == AstBinOp::Sub || op == AstBinOp::Mul || op == AstBinOp::Div
}

/// The operation and result type of `op` on operands of type `t`, where
/// lowering handles it: the four operations on `int32` and on `uint64`.
pub open spec fn binop_s(op: AstBinOp, t: TyTree) -> Option<(BinOpKind, TyTree)> {
    if t == TyTree::Int(IntTy::Int32) || t == TyTree::UInt(UIntTy::UInt64) {
        match op {
            AstBinOp::Add => Some((BinOpKind::Add, t)),
            AstBinOp::Sub => Some((BinOpKind::Sub, t)),
            AstBinOp::Mul => Some((BinOpKind::Mul, t)),
            AstBinOp::Div => Some((BinOpKind::Div, t)),
            _ => None,
        }
    } else {
        None
    }
}

/// The number of literals and operations in an expression, others counting
/// as one.
pub open spec fn expr_size(e: AstExpr) -> nat
    decreases e,
{
    match e.node {
        AstExprKind::Binary(_, l, r, _) => expr_size(*l) + expr_size(*r) + 2,
        _ => 1,
    }
}

/// What lowering an operation gives: see `lower_s`.
pub open spec fn lower_binary_s(
    op: AstBinOp,
    l: AstExpr,
    r: AstExpr,
    span: Span,
    expect: Option<TyTree>,
    names: Seq<Seq<char>>,
) -> Result<ExprV, (ErrorKindV, Span)>
    decreases expr_size(l) + expr_size(r) + 1,
{
    match lower_s(l, expect, names) {
        Err(x) => Err(x),
        Ok(lv) => match lower_s(r, Some(ty_of(lv)), names) {
            Err(x) => Err(x),
            Ok(rv) => if ty_of(lv) != ty_of(rv) {
                Err((ErrorKindV::Other(binop_msg(op, ty_of(lv), ty_of(rv))), span))
            } else {
                match binop_s(op, ty_of(lv)) {
                    Some((k, t)) => match check_s(expect, t, span) {
                        Some(x) => Err(x),
                        None => Ok(ExprV::BinOp(k, Box::new(lv), Box::new(rv), t)),
                    },
                    None => Err((ErrorKindV::Other(Seq::empty()), span)),
                }
            },
        },
    }
}

/// The operations that lowering handles: see `lower_ok`.
pub open spec fn binary_ok(op: AstBinOp, l: AstExpr, r: AstExpr, expect: Option<TyTree>, names: Seq<Seq<char>>) -> bool
    decreases expr_size(l) + expr_size(r) + 1,
{
    &&& is_math(op)
    &&& lower_ok(l, expect, names)
    &&& match lower_s(l, expect, names) {
        Err(_) => true,
        Ok(lv) => {
            &&& lower_ok(r, Some(ty_of(lv)), names)
            &&& match lower_s(r, Some(ty_of(lv)), names) {
                Err(_) => true,
                Ok(rv) => ty_of(lv) != ty_of(rv) || binop_s(op, ty_of(lv)) is Some,
            }
        },
    }
}

/// What an operation of the intermediate form computes, on integers.
pub open spec fn ir_apply(k: BinOpKind, a: int, b: int) -> int {
    match k {
        BinOpKind::Add => a + b,
        BinOpKind::Sub => a - b,
        BinOpKind::Mul => a * b,
        BinOpKind::Div => a / b,
    }
}

/// What an arithmetic operator of the syntax tree computes, on integers
/// (0 for the comparisons, which are not arithmetic).
pub open spec fn ast_apply(op: AstBinOp, a: int, b: int) -> int {
    match op {
        AstBinOp::Add => a + b,
        AstBinOp::Sub => a - b,
        AstBinOp::Mul => a * b,
        AstBinOp::Div => a / b,
        _ => 0,
    }
}

/// Lowering keeps the meaning of each arithmetic operator: on `int32` and
/// on `uint64` every one of the four lowers, to an operation of the same
/// operand type that computes what the operator does on any two integers;
/// no other operator or type lowers, and distinct operators lower to
/// distinct operations.
pub proof fn lemma_lowered_ops_keep_meaning(op: AstBinOp, op2: AstBinOp, t: TyTree, a: int, b: int)
    ensures
        binop_s(op, t) is Some <==> is_math(op) && (t == TyTree::Int(IntTy::Int32) || t == TyTree::UInt(
            UIntTy::UInt64,
        )),
        binop_s(op, t) matches Some((k, r)) ==> r == t && ir_apply(k, a, b) == ast_apply(op, a, b),
        binop_s(op, t) matches Some((k, _)) ==> (binop_s(op2, t) matches Some((k2, _)) ==> (k == k2
            <==> op == op2)),
{
}

/// What lowering an expression gives, with `expect` the type its context
/// asks for: the left operand of an operation gets the same expectation,
/// the right one the left one's type; operands of different types are an
/// error at the operation's span, and so is a result of a type other than
/// the expected one.
pub open spec fn lower_s(e: AstExpr, expect: Option<TyTree>, names: Seq<Seq<char>>) -> Result<
    ExprV,
    (ErrorKindV, Span),
>
    decreases expr_size(e),
{
    match e.node {
        AstExprKind::Lit(l) => lower_lit_s(l, e.span, expect, names),
        AstExprKind::Binary(op, l, r, span) => lower_binary_s(op, *l, *r, span, expect, names),
        _ => Err((ErrorKindV::Other(Seq::empty()), e.span)),
    }
}

/// The expressions that lowering handles: literals it handles, and the
/// four arithmetic operations on operands it handles, where the operand
/// types agree only on `int32` or `uint64`.
pub open spec fn lower_ok(e: AstExpr, expect: Option<TyTree>, names: Seq<Seq<char>>) -> bool
    decreases expr_size(e),
{
    match e.node {
        AstExprKind::Lit(l) => lit_ok(l, expect, names),
        AstExprKind::Binary(op, l, r, _) => binary_ok(op, *l, *r, expect, names),
        _ => false,
    }
}

/// Lowering's result seen through the views.
pub open spec fn lowered(r: Result<Expr, Error>, s: Result<ExprV, (ErrorKindV, Span)>) -> bool {
    match (r, s) {
        (Ok(e), Ok(v)) => expr_v(e) == v,
        (Err(x), Err(y)) => error_v(x) == y,
        _ => false,
    }
}

/// The expression `got` has the type `expected`, or else a mismatch error.
pub fn check_type(expected: &Ty, got: &Ty, span: Span) -> (r: Result<(), Error>)
    ensures
        r is Ok <==> expected@ == got@,
        r matches Err(e) ==> error_v(e) == (
            ErrorKindV::MismatchedType(ty_text(expected@, Seq::empty()), ty_text(got@, Seq::empty())),
            span,
        ),
{
    if ty_eq(got, expected) {
        Ok(())
    } else {
        Err(Error::new_type_mismatch(expected, got, span))
    }
}

fn check_expect(expect: &Option<Ty>, got: &Ty, span: Span) -> (r: Result<(), Error>)
    ensures
        match check_s(opt_ty(*expect), got@, span) {
            None => r is Ok,
            Some(x) => r matches Err(e) && error_v(e) == x,
        },
{
    match expect {
        Some(t) => check_type(t, got, span),
        None => Ok(()),
    }
}

fn copy_expect(expect: &Option<Ty>) -> (r: Option<Ty>)
    ensures
        opt_ty(r) == opt_ty(*expect),
{
    match expect {
        Some(t) => Some(t.deep_clone()),
        None => None,
    }
}

/// Lowers an expression, with `expect` the type its context asks for.
pub fn lower_expr(ast: &AstExpr, expect: Option<Ty>, ctx: &TyCtx, names: &SymTable) -> (r: Result<Expr, Error>)
    requires
        lower_ok(*ast, opt_ty(expect), names@),
    ensures
        lowered(r, lower_s(*ast, opt_ty(expect), names@)),
    decreases expr_size(*ast),
{
    match &ast.node {
        AstExprKind::Lit(lit) => lower_lit(lit, ast.span, expect, ctx, names),
        AstExprKind::Binary(op, lhs, rhs, span) => lower_binary(*op, lhs, rhs, *span, expect, ctx, names),
        _ => {
            assert(false);
            Err(Error::new_other("", ast.span))
        },
    }
}

/// Lowers a literal, with `expect` the type its context asks for.
pub fn lower_lit(ast: &AstLit, span: Span, expect: Option<Ty>, ctx: &TyCtx, names: &SymTable) -> (r: Result<
    Expr,
    Error,
>)
    requires
        lit_ok(*ast, opt_ty(expect), names@),
    ensures
        lowered(r, lower_lit_s(*ast, span, opt_ty(expect), names@)),
{
    let is_int8 = match &expect {
        Some(t) => ty_eq(t, &ctx.mk_int(IntTy::Int8)),
        None => false,
    };
    let (kind, ty) = match ast {
        AstLit::Null => (Lit::Null, ctx.mk_nullable(ctx.mk_never())),
        AstLit::Int(sym) => {
            let raw = names.get_str(*sym);
            if is_int8 {
                match parse_i8(raw) {
                    Some(v) => (Lit::Int8(v), ctx.mk_int(IntTy::Int8)),
                    None => {
                        assert(false);
                        (Lit::Null, ctx.mk_never())
                    },
                }
            } else {
                match parse_i32(raw) {
                    Some(v) => (Lit::Int32(v), ctx.mk_int(IntTy::Int32)),
                    None => {
                        assert(false);
                        (Lit::Null, ctx.mk_never())
                    },
                }
            }
        },
        _ => {
            assert(false);
            (Lit::Null, ctx.mk_never())
        },
    };
    match check_expect(&expect, &ty, span) {
        Err(e) => Err(e),
        Ok(()) => Ok(Expr { kind: ExprKind::Lit(kind), ty }),
    }
}

/// Lowers an arithmetic operation, with `expect` the type its context asks
/// for.
pub fn lower_binary(
    op: AstBinOp,
    lhs: &AstExpr,
    rhs: &AstExpr,
    span: Span,
    expect: Option<Ty>,
    ctx: &TyCtx,
    names: &SymTable,
) -> (r: Result<Expr, Error>)
    requires
        binary_ok(op, *lhs, *rhs, opt_ty(expect), names@),
    ensures
        lowered(r, lower_binary_s(op, *lhs, *rhs, span, opt_ty(expect), names@)),
    decreases expr_size(*lhs) + expr_size(*rhs) + 1,
{
    let lhs_expect = copy_expect(&expect);
    let lhs = match lower_expr(lhs, lhs_expect, ctx, names) {
        Ok(e) => e,
        Err(e) => {
            return Err(e);
        },
    };
    let rhs = match lower_expr(rhs, Some(lhs.ty.deep_clone()), ctx, names) {
        Ok(e) => e,
        Err(e) => {
            return Err(e);
        },
    };
    if !ty_eq(&lhs.ty, &rhs.ty) {
        return Err(Error::new_binop(op, &lhs.ty, &rhs.ty, span));
    }
    let is_i32 = ty_eq(&lhs.ty, &ctx.mk_int(IntTy::Int32));
    let is_u64 = ty_eq(&lhs.ty, &ctx.mk_uint(UIntTy::UInt64));
    let (kind, ty) = match op {
        AstBinOp::Add if is_i32 => (BinOpKind::Add, ctx.mk_int(IntTy::Int32)),
        AstBinOp::Add if is_u64 => (BinOpKind::Add, ctx.mk_uint(UIntTy::UInt64)),
        AstBinOp::Sub if is_i32 => (BinOpKind::Sub, ctx.mk_int(IntTy::Int32)),
        AstBinOp::Sub if is_u64 => (BinOpKind::Sub, ctx.mk_uint(UIntTy::UInt64)),
        AstBinOp::Mul if is_i32 => (BinOpKind::Mul, ctx.mk_int(IntTy::Int32)),
        AstBinOp::Mul if is_u64 => (BinOpKind::Mul, ctx.mk_uint(UIntTy::UInt64)),
        AstBinOp::Div if is_i32 => (BinOpKind::Div, ctx.mk_int(IntTy::Int32)),
        AstBinOp::Div if is_u64 => (BinOpKind::Div, ctx.mk_uint(UIntTy::UInt64)),
        _ => {
            assert(false);
            return Err(Error::new_other("", span));
        },
    };
    match check_expect(&expect, &ty, span) {
        Err(e) => Err(e),
        Ok(()) => Ok(Expr { kind: ExprKind::BinOp(BinOp { op: kind, lhs: Box::new(lhs), rhs: Box::new(rhs) }), ty }),
    }
}

/// What lowering a program gives: the lowering of the tail expression of
/// its first function named `main`; an error at the empty span at 0 where
/// there is no such function, or it has no tail expression.
pub open spec fn lower_program_s(p: AstProgram, names: Seq<Seq<char>>, main: Option<usize>) -> Result<
    ExprV,
    (ErrorKindV, Span),
> {
    match main {
        None => Err((ErrorKindV::Other("no main function"@), Span { start: 0, end: 0 })),
        Some(i) => match p.funcs@[i as int].body.tail {
            None => Err((ErrorKindV::Other("no tail expression"@), Span { start: 0, end: 0 })),
            Some(t) => lower_s(*t, None, names),
        },
    }
}

/// The program's `main`, if any, has a tail expression that lowering handles.
pub open spec fn program_ok(p: AstProgram, names: Seq<Seq<char>>) -> bool {
    forall|i: usize|
        is_main_index(p.funcs@, names, Some(i)) ==> match #[trigger] p.funcs@[i as int].body.tail {
            Some(t) => lower_ok(*t, None, names),
            None => true,
        }
}

/// Lowers the tail expression of the program's first function named `main`.
pub fn lower_program(ast: &AstProgram, ctx: &TyCtx, names: &SymTable) -> (r: Result<Program, Error>)
    requires
        program_syms(*ast, names@.len()),
        program_ok(*ast, names@),
    ensures
        forall|m: Option<usize>|
            #[trigger] is_main_index(ast.funcs@, names@, m) ==> lowered(
                match r {
                    Ok(p) => Ok(p.expr),
                    Err(e) => Err(e),
                },
                lower_program_s(*ast, names@, m),
            ),
{
    let main = find_main(ast, names);
    proof {
        assert forall|m: Option<usize>| #[trigger] is_main_index(ast.funcs@, names@, m) implies m == main by {
            crate::compile::lemma_main_index_unique(ast.funcs@, names@, m, main);
        }
    }
    let i = match main {
        Some(i) => i,
        None => {
            return Err(Error::new_other("no main function", Span::new(0, 0)));
        },
    };
    let tail = match &ast.funcs[i].body.tail {
        Some(t) => t,
        None => {
            return Err(Error::new_other("no tail expression", Span::new(0, 0)));
        },
    };
    match lower_expr(tail, None, ctx, names) {
        Ok(expr) => Ok(Program { expr }),
        Err(e) => Err(e),
    }
}

} // verus!
