//! Checking programs: what type each expression has, given the type it is
//! expected to have, with the diagnostics found on the way.
use vstd::prelude::*;

use crate::ast::{Ident, binop_text, unaryop_text, BinOp, Block, Expr, ExprKind, Func, Lit, Program, Stmt, StmtKind, UnaryOp};
use crate::diagnostics::{DiagView, Diagnostic, DiagnosticReporter, ErrGuaranteed};
use crate::name_resolution::DefId;
use crate::typecheck::{def_v, Def, FuncDef, TypeChecker};
use crate::ast::Symbol;
use std::collections::HashMap;
use crate::types::infer::bounds_view;
use crate::ast::sexpr::{block_syms, expr_syms, func_syms, program_syms, stmt_syms, ty_syms};
use crate::text::{push_decimal, push_str};
use crate::types::ty::ty_eq;
use crate::util::Args;
use crate::types::infer::Bound;
use crate::types::ty::{clone_tys, tys_view, Ty, TyKind};
use crate::interner::Index;
use crate::span::Span;
use crate::text::decimal;
use crate::typecheck::{
    error_view, lower_reports, lower_reports_list, lower_spec, param_position, DefV, Env, TcV,
};
use crate::types::infer::{
    join_spec, meet_spec, params_below, quoted, reconcile_spec, subst, subst_bounds,
    type_error_text,
};
use crate::util::args_text;
use crate::types::ty::{array_elem_spec, occurs, ty_text, FloatTy, IntTy, TyTree};

verus! {

/// The unit type: the empty tuple.
pub open spec fn unit_ty() -> TyTree {
    TyTree::Tuple(Seq::empty())
}

pub open spec fn unary_text(op: UnaryOp, t: TyTree) -> Seq<char> {
    "cannot apply unary operator '"@ + unaryop_text(op) + "' to "@ + quoted(t)
}

pub open spec fn binary_text(l: TyTree, op: BinOp, r: TyTree) -> Seq<char> {
    "no implementation for "@ + quoted(l) + " "@ + binop_text(op) + " "@ + quoted(r)
}

pub open spec fn overlap_text(l: TyTree, r: TyTree) -> Seq<char> {
    "this comparison can never be true as "@ + quoted(l) + " and "@ + quoted(r)
        + " have no overlap"@
}

pub open spec fn arity_text(exp: nat, act: nat) -> Seq<char> {
    "expected "@ + args_text(exp) + ", found "@ + decimal(act)
}

pub open spec fn not_func_text(t: TyTree) -> Seq<char> {
    "expected a function, found "@ + quoted(t)
}

pub open spec fn index_text(t: TyTree) -> Seq<char> {
    "cannot index into type "@ + quoted(t)
}

/// The message for a name whose definition has not been checked, or whose
/// use was never resolved.
pub open spec fn unchecked_text() -> Seq<char> {
    "this name has no checked definition"@
}

pub open spec fn report_s(st: TcV, message: Seq<char>, span: Span) -> TcV {
    TcV { reports: st.reports.push(error_view(message, span)), ..st }
}

/// The type of a literal.
pub open spec fn lit_ty(l: Lit) -> TyTree {
    match l {
        Lit::Null => TyTree::Nullable(Box::new(TyTree::Never)),
        Lit::Bool(_) => TyTree::Bool,
        Lit::Int(_) => TyTree::Int(IntTy::Int32),
        Lit::Float(_) => TyTree::Float(FloatTy::Float64),
        Lit::Str(_) => TyTree::Str,
        Lit::Error(_) => TyTree::Error,
    }
}

/// The variables after `n` fresh ones are added to the innermost list.
pub open spec fn fresh_vars(vars: Seq<Seq<(TyTree, TyTree)>>, n: nat) -> Seq<
    Seq<(TyTree, TyTree)>,
> {
    vars.drop_last().push(
        vars.last() + Seq::new(n, |i: int| (TyTree::Never, TyTree::Any)),
    )
}

/// The type a definition gives a use of its name: a variable's type, or a
/// function's type with fresh inference variables for its type parameters.
pub open spec fn def_ty_s(st: TcV, d: u32) -> (TcV, TyTree) {
    match st.def_map[d] {
        DefV::Var(t) => (st, t),
        DefV::Func { name, ty_params, params, ret } => {
            let n = st.ty_vars.last().len();
            let k = ty_params.len();
            let vars = Seq::new(k, |i: int| TyTree::Var((n + i) as u32));
            (
                TcV { ty_vars: fresh_vars(st.ty_vars, k), ..st },
                TyTree::Func(
                    Seq::new(params.len(), |i: int| subst(params[i], vars)),
                    Box::new(subst(ret, vars)),
                ),
            )
        },
    }
}

/// The type of a name used as a value.
pub open spec fn var_ty_s(st: TcV, env: Env, name: crate::ast::Ident) -> (TcV, TyTree) {
    match env.uses.get(name.id.0) {
        Some(Ok(d)) => if st.def_map.contains_key(d.0) {
            def_ty_s(st, d.0)
        } else {
            (report_s(st, unchecked_text(), name.span), TyTree::Error)
        },
        Some(Err(_)) => (st, TyTree::Error),
        None => (report_s(st, unchecked_text(), name.span), TyTree::Error),
    }
}

/// Checks `e` against `expected`: the type it has and the state after.
pub open spec fn check_expr_s(st: TcV, env: Env, e: Expr, expected: TyTree) -> (TcV, TyTree)
    decreases e, 1nat, 0nat,
{
    if st.type_map.contains_key(e.id.0) {
        (st, st.type_map[e.id.0])
    } else {
        let vars = st.ty_vars.last();
        let exp1 = if vars.len() > 0 {
            subst_bounds(expected, vars, true)
        } else {
            expected
        };
        let (st1, actual) = actual_s(st, env, e, exp1);
        let vars1 = st1.ty_vars.last();
        let act1 = if vars1.len() > 0 {
            subst_bounds(exp1, vars1, false)
        } else {
            actual
        };
        if occurs(exp1, TyTree::Pending) {
            (st1, act1)
        } else {
            match reconcile_spec(act1, exp1) {
                Ok(t) => (TcV { type_map: st1.type_map.insert(e.id.0, t), ..st1 }, t),
                Err(err) => {
                    let st2 = report_s(st1, type_error_text(err), e.span);
                    (TcV { type_map: st2.type_map.insert(e.id.0, TyTree::Error), ..st2 }, TyTree::Error)
                },
            }
        }
    }
}

/// Logical not applies to booleans alone: where its operand checks as
/// `bool`, so does the expression; for an operand of any other type the
/// checker reports "cannot apply unary operator '!' to" that type at the
/// operator's span, and the expression has the error type.
pub proof fn lemma_not_needs_bool(st: TcV, env: Env, e: Expr, rhs: Expr, span: Span, expected: TyTree)
    requires
        e.node == ExprKind::Unary(UnaryOp::Not, Box::new(rhs), span),
    ensures
        ({
            let (st1, r) = check_expr_s(st, env, rhs, TyTree::Infer);
            if r == TyTree::Bool {
                actual_s(st, env, e, expected) == (st1, TyTree::Bool)
            } else {
                actual_s(st, env, e, expected) == (
                    report_s(st1, "cannot apply unary operator '!' to "@ + quoted(r), span),
                    TyTree::Error,
                )
            }
        }),
{
    let (st1, r) = check_expr_s(st, env, rhs, TyTree::Infer);
    reveal_strlit("cannot apply unary operator '");
    reveal_strlit("!");
    reveal_strlit("' to ");
    reveal_strlit("cannot apply unary operator '!' to ");
    assert(unary_text(UnaryOp::Not, r) =~= "cannot apply unary operator '!' to "@ + quoted(r));
}

/// Negation applies to numbers alone: where its operand checks as a signed,
/// unsigned or float type, the expression has that type; for an operand of
/// any other type the checker reports "cannot apply unary operator '-' to"
/// that type at the operator's span, and the expression has the error type.
pub proof fn lemma_negate_needs_number(st: TcV, env: Env, e: Expr, rhs: Expr, span: Span, expected: TyTree)
    requires
        e.node == ExprKind::Unary(UnaryOp::Negate, Box::new(rhs), span),
    ensures
        ({
            let (st1, r) = check_expr_s(st, env, rhs, TyTree::Infer);
            if r is Int || r is UInt || r is Float {
                actual_s(st, env, e, expected) == (st1, r)
            } else {
                actual_s(st, env, e, expected) == (
                    report_s(st1, "cannot apply unary operator '-' to "@ + quoted(r), span),
                    TyTree::Error,
                )
            }
        }),
{
    let (st1, r) = check_expr_s(st, env, rhs, TyTree::Infer);
    reveal_strlit("cannot apply unary operator '");
    reveal_strlit("-");
    reveal_strlit("' to ");
    reveal_strlit("cannot apply unary operator '-' to ");
    assert(unary_text(UnaryOp::Negate, r) =~= "cannot apply unary operator '-' to "@ + quoted(r));
}

/// The types of binary operations: arithmetic (`+ - * /`) needs operands of
/// one type and has that type, and on operands of different types reports
/// "no implementation for" them at the operator's span and has the error
/// type; an ordering comparison is `bool` and reports nothing; an equality
/// comparison is `bool` and reports only operands with no common value.
pub proof fn lemma_binary_types(
    st: TcV,
    env: Env,
    e: Expr,
    op: BinOp,
    lhs: Expr,
    rhs: Expr,
    span: Span,
    expected: TyTree,
)
    requires
        e.node == ExprKind::Binary(op, Box::new(lhs), Box::new(rhs), span),
    ensures
        ({
            let (st1, l) = check_expr_s(st, env, lhs, TyTree::Infer);
            let (st2, r) = check_expr_s(st1, env, rhs, TyTree::Infer);
            let res = actual_s(st, env, e, expected);
            &&& (op == BinOp::Add || op == BinOp::Sub || op == BinOp::Mul || op == BinOp::Div) ==> res == (
                if l == r {
                    (st2, l)
                } else {
                    (
                        report_s(
                            st2,
                            "no implementation for "@ + quoted(l) + " "@ + binop_text(op) + " "@ + quoted(r),
                            span,
                        ),
                        TyTree::Error,
                    )
                }
            )
            &&& (op == BinOp::Lt || op == BinOp::LtEq || op == BinOp::Gt || op == BinOp::GtEq) ==> res == (
                st2,
                TyTree::Bool,
            )
            &&& (op == BinOp::Eq || op == BinOp::NotEq) ==> res.1 == TyTree::Bool && (res.0 == st2 <==> !(
            meet_spec(l, r) is Never)) && res.0.type_map == st2.type_map
        }),
{
    let (st1, l) = check_expr_s(st, env, lhs, TyTree::Infer);
    let (st2, r) = check_expr_s(st1, env, rhs, TyTree::Infer);
    if (op == BinOp::Eq || op == BinOp::NotEq) && meet_spec(l, r) is Never {
        let st3 = report_s(st2, overlap_text(l, r), span);
        assert(st3.reports.len() == st2.reports.len() + 1);
    }
}

/// The type `e` has before it is reconciled with what is expected.
pub open spec fn actual_s(st: TcV, env: Env, e: Expr, expected: TyTree) -> (TcV, TyTree)
    decreases e, 0nat, 0nat,
{
    match e.node {
        ExprKind::Lit(l) => (st, lit_ty(l)),
        ExprKind::Var(name) => var_ty_s(st, env, name),
        ExprKind::Unary(op, rhs, span) => {
            let (st1, r) = check_expr_s(st, env, *rhs, TyTree::Infer);
            if (op == UnaryOp::Not && r is Bool) || (op == UnaryOp::Negate && (r is Int || r is UInt
                || r is Float)) {
                (st1, r)
            } else {
                (report_s(st1, unary_text(op, r), span), TyTree::Error)
            }
        },
        ExprKind::Binary(op, lhs, rhs, span) => {
            let (st1, l) = check_expr_s(st, env, *lhs, TyTree::Infer);
            let (st2, r) = check_expr_s(st1, env, *rhs, TyTree::Infer);
            match op {
                BinOp::Add | BinOp::Sub | BinOp::Mul | BinOp::Div => if l == r {
                    (st2, l)
                } else {
                    (report_s(st2, binary_text(l, op, r), span), TyTree::Error)
                },
                BinOp::Eq | BinOp::NotEq => if meet_spec(l, r) is Never {
                    (report_s(st2, overlap_text(l, r), span), TyTree::Bool)
                } else {
                    (st2, TyTree::Bool)
                },
                _ => (st2, TyTree::Bool),
            }
        },
        ExprKind::Call(func, args, span) => {
            let (st1, f) = check_expr_s(st, env, *func, TyTree::Infer);
            match f {
                TyTree::Func(ps, ret) => {
                    let st2 = if ps.len() != args@.len() {
                        report_s(st1, arity_text(ps.len(), args@.len()), span)
                    } else {
                        st1
                    };
                    (args_s(st2, env, args, 0, ps), *ret)
                },
                TyTree::Error => (args_s(st1, env, args, 0, Seq::empty()), TyTree::Error),
                _ => {
                    let st2 = report_s(st1, not_func_text(f), func.span);
                    (args_s(st2, env, args, 0, Seq::empty()), TyTree::Error)
                },
            }
        },
        ExprKind::Grouped(inner) => check_expr_s(st, env, *inner, expected),
        ExprKind::Array(elems) => {
            let el = match array_elem_spec(expected) {
                Some(t) => t,
                None => TyTree::Infer,
            };
            let (st1, t) = elems_s(st, env, elems, 0, el, TyTree::Never);
            (st1, TyTree::Array(Box::new(t)))
        },
        ExprKind::Index(a, i) => {
            let (st1, at) = check_expr_s(st, env, *a, TyTree::Infer);
            let (st2, _) = check_expr_s(st1, env, *i, TyTree::Int(IntTy::Int64));
            match at {
                TyTree::Array(el) => (st2, *el),
                TyTree::Error => (st2, at),
                _ => (report_s(st2, index_text(at), a.span), TyTree::Error),
            }
        },
        ExprKind::If { cond, then, els } => {
            let (st1, _) = check_expr_s(st, env, *cond, TyTree::Bool);
            let (st2, t) = check_expr_s(st1, env, *then, expected);
            let (st3, f) = match els {
                Some(x) => check_expr_s(st2, env, *x, expected),
                None => (st2, unit_ty()),
            };
            (st3, join_spec(t, f))
        },
        ExprKind::Block(b) => check_block_s(st, env, b, expected),
    }
}

/// Checks the arguments `args[i..]` of a call, each against the parameter
/// type at its position, or `_` past the end of `params`.
pub open spec fn args_s(st: TcV, env: Env, args: Vec<Expr>, i: int, params: Seq<TyTree>) -> TcV
    decreases args, args@.len() - i, 0nat,
{
    if 0 <= i < args@.len() {
        let exp = if i < params.len() {
            params[i]
        } else {
            TyTree::Infer
        };
        args_s(check_expr_s(st, env, args@[i], exp).0, env, args, i + 1, params)
    } else {
        st
    }
}

/// Checks the elements `es[i..]` of an array against `el`, joining their
/// types onto `acc`.
pub open spec fn elems_s(
    st: TcV,
    env: Env,
    es: Vec<Expr>,
    i: int,
    el: TyTree,
    acc: TyTree,
) -> (TcV, TyTree)
    decreases es, es@.len() - i, 0nat,
{
    if 0 <= i < es@.len() {
        let (st1, t) = check_expr_s(st, env, es@[i], el);
        elems_s(st1, env, es, i + 1, el, join_spec(acc, t))
    } else {
        (st, acc)
    }
}

/// Checks a block against `expected`: its statements, then its tail.
pub open spec fn check_block_s(st: TcV, env: Env, b: Block, expected: TyTree) -> (TcV, TyTree)
    decreases b, 0nat, 0nat,
{
    let st1 = stmts_s(st, env, b.stmts, 0);
    match b.tail {
        Some(t) => toplevel_s(st1, env, *t, expected),
        None => (st1, unit_ty()),
    }
}

/// Checks the statements `ss[i..]` in order.
pub open spec fn stmts_s(st: TcV, env: Env, ss: Vec<Stmt>, i: int) -> TcV
    decreases ss, ss@.len() - i, 0nat,
{
    if 0 <= i < ss@.len() {
        stmts_s(stmt_s(st, env, ss@[i]), env, ss, i + 1)
    } else {
        st
    }
}

/// The state after lowering a written type with no type parameters.
pub open spec fn lower_s(st: TcV, env: Env, t: crate::ast::Ty) -> (TcV, TyTree) {
    (
        TcV { reports: st.reports + lower_reports(t, Seq::empty(), env.names), ..st },
        lower_spec(t, Seq::empty(), env.names),
    )
}

pub open spec fn stmt_s(st: TcV, env: Env, s: Stmt) -> TcV
    decreases s, 0nat, 0nat,
{
    match s.node {
        StmtKind::Expr(e) => toplevel_s(st, env, *e, TyTree::Infer).0,
        StmtKind::Let(name, ty, value, _) => {
            let (st1, expected) = match ty {
                Some(t) => lower_s(st, env, *t),
                None => (st, TyTree::Infer),
            };
            let (st2, t) = toplevel_s(st1, env, *value, expected);
            match env.uses.get(name.id.0) {
                Some(Ok(d)) => TcV { def_map: st2.def_map.insert(d.0, DefV::Var(t)), ..st2 },
                _ => st2,
            }
        },
        StmtKind::Assign(lhs, rhs) => {
            let expected = match env.uses.get(lhs.id.0) {
                Some(Ok(d)) => match st.def_map.get(d.0) {
                    Some(DefV::Var(t)) => t,
                    _ => TyTree::Infer,
                },
                _ => TyTree::Infer,
            };
            toplevel_s(st, env, *rhs, expected).0
        },
    }
}

/// Checks an expression of its own: with a new list of inference
/// variables, again and again until its type is known, ten times at most.
pub open spec fn toplevel_s(st: TcV, env: Env, e: Expr, expected: TyTree) -> (TcV, TyTree)
    decreases e, 3nat, 0nat,
{
    let st1 = TcV { ty_vars: st.ty_vars.push(Seq::empty()), ..st };
    let (st2, t) = toplevel_loop_s(st1, env, e, expected, TyTree::Pending, 0);
    (TcV { ty_vars: st2.ty_vars.drop_last(), ..st2 }, t)
}

pub open spec fn toplevel_loop_s(
    st: TcV,
    env: Env,
    e: Expr,
    expected: TyTree,
    ret: TyTree,
    cnt: nat,
) -> (TcV, TyTree)
    decreases e, 2nat, 10 - cnt,
{
    if !occurs(ret, TyTree::Pending) {
        (st, ret)
    } else if cnt >= 10 {
        (report_s(st, "hit iteration limit"@, Span::dummy_spec()), ret)
    } else {
        let (st1, r) = check_expr_s(st, env, e, expected);
        toplevel_loop_s(st1, env, e, expected, r, cnt + 1)
    }
}


/// An expression whose type has been recorded is not checked again:
/// checking it gives the recorded type and changes nothing.
pub proof fn lemma_recorded_type(st: TcV, env: Env, e: Expr, expected: TyTree)
    requires
        st.type_map.contains_key(e.id.0),
    ensures
        check_expr_s(st, env, e, expected) == (st, st.type_map[e.id.0]),
{
}

/// Lowers the types of the first `k` parameters of a function.
pub open spec fn lower_params_s(st: TcV, env: Env, ps: Seq<(Ident, crate::ast::Ty)>, k: int) -> (
    TcV,
    Seq<TyTree>,
)
    decreases k,
{
    if 0 < k <= ps.len() {
        let (st1, tys) = lower_params_s(st, env, ps, k - 1);
        let (st2, t) = lower_s(st1, env, ps[k - 1].1);
        (st2, tys.push(t))
    } else {
        (st, Seq::empty())
    }
}

/// The type of what a function returns.
pub open spec fn lower_ret_s(st: TcV, env: Env, ret: Option<crate::ast::Ty>) -> (TcV, TyTree) {
    match ret {
        Some(t) => lower_s(st, env, t),
        None => (st, unit_ty()),
    }
}

/// Records the signature of a function under its definition.
pub open spec fn sig_s(st: TcV, env: Env, f: Func) -> TcV {
    let (st1, ps) = lower_params_s(st, env, f.params@, f.params@.len() as int);
    let (st2, ret) = lower_ret_s(st1, env, f.ret);
    match env.uses.get(f.name.id.0) {
        Some(Ok(d)) => TcV {
            def_map: st2.def_map.insert(
                d.0,
                DefV::Func { name: f.name.sym.index_of(), ty_params: f.ty_params@, params: ps, ret },
            ),
            ..st2
        },
        _ => st2,
    }
}

/// Records the types of the first `k` parameters of a function under their
/// definitions.
pub open spec fn body_params_s(st: TcV, env: Env, ps: Seq<(Ident, crate::ast::Ty)>, k: int) -> TcV
    decreases k,
{
    if 0 < k <= ps.len() {
        let st1 = body_params_s(st, env, ps, k - 1);
        let (st2, t) = lower_s(st1, env, ps[k - 1].1);
        match env.uses.get(ps[k - 1].0.id.0) {
            Some(Ok(d)) => TcV { def_map: st2.def_map.insert(d.0, DefV::Var(t)), ..st2 },
            _ => st2,
        }
    } else {
        st
    }
}

/// Checks the body of a function against what it returns.
pub open spec fn body_s(st: TcV, env: Env, f: Func) -> TcV {
    let st1 = body_params_s(st, env, f.params@, f.params@.len() as int);
    let (st2, ret) = lower_ret_s(st1, env, f.ret);
    check_block_s(st2, env, f.body, ret).0
}

/// Records the built-in `print`, a function from anything to the unit type.
pub open spec fn print_def_s(st: TcV, env: Env) -> TcV {
    match env.print {
        Some(d) => if env.names.contains("print"@) {
            TcV {
                def_map: st.def_map.insert(
                    d.0,
                    DefV::Func {
                        name: env.names.index_of("print"@) as nat,
                        ty_params: Seq::empty(),
                        params: seq![TyTree::Any],
                        ret: unit_ty(),
                    },
                ),
                ..st
            }
        } else {
            st
        },
        None => st,
    }
}

pub open spec fn sigs_s(st: TcV, env: Env, fs: Seq<Func>, k: int) -> TcV
    decreases k,
{
    if 0 < k <= fs.len() {
        sig_s(sigs_s(st, env, fs, k - 1), env, fs[k - 1])
    } else {
        st
    }
}

pub open spec fn bodies_s(st: TcV, env: Env, fs: Seq<Func>, k: int) -> TcV
    decreases k,
{
    if 0 < k <= fs.len() {
        body_s(bodies_s(st, env, fs, k - 1), env, fs[k - 1])
    } else {
        st
    }
}

/// Checks a program: the signatures of all its functions, then their bodies.
#[verifier::opaque]
pub open spec fn program_s(st: TcV, env: Env, p: Program) -> TcV {
    let n = p.funcs@.len() as int;
    bodies_s(sigs_s(print_def_s(st, env), env, p.funcs@, n), env, p.funcs@, n)
}

/// Lowering a written type with no type parameters in scope gives a type
/// without parameters.
pub proof fn lemma_lower_no_params(t: crate::ast::Ty, names: Seq<Seq<char>>)
    ensures
        params_below(lower_spec(t, Seq::empty(), names), 0),
    decreases t,
{
    match t.node {
        crate::ast::TyKind::Var(ident) => {
            reveal_with_fuel(params_below, 2);
            assert(param_position(Seq::<Ident>::empty(), ident.sym) is None);
        },
        crate::ast::TyKind::Nullable(inner) => lemma_lower_no_params(*inner, names),
        crate::ast::TyKind::Array(inner) => lemma_lower_no_params(*inner, names),
        crate::ast::TyKind::Tuple(tys) => {
            assert forall|i: int| 0 <= i < tys@.len() implies params_below(
                lower_spec(tys@[i], Seq::empty(), names),
                0,
            ) by {
                lemma_lower_no_params(tys@[i], names);
            }
        },
        _ => {},
    }
}

/// A definition the checker can give a type: a variable, or a function
/// without type parameters whose types have no parameters.
pub open spec fn def_ok(d: DefV) -> bool {
    match d {
        DefV::Func { ty_params, params, ret, .. } => {
            &&& ty_params.len() == 0
            &&& forall|i: int| 0 <= i < params.len() ==> params_below(#[trigger] params[i], 0)
            &&& params_below(ret, 0)
        },
        DefV::Var(_) => true,
    }
}

/// The lists of inference variables are empty, and every definition is one
/// the checker can give a type.
pub open spec fn tc_wf(st: TcV) -> bool {
    &&& forall|i: int| 0 <= i < st.ty_vars.len() ==> (#[trigger] st.ty_vars[i]).len() == 0
    &&& forall|d: u32| #[trigger] st.def_map.contains_key(d) ==> def_ok(st.def_map[d])
}


fn unary_message(op: &UnaryOp, t: &Ty) -> (s: String)
    ensures
        s@ == unary_text(*op, t@),
{
    let mut msg = String::new();
    push_str(&mut msg, "cannot apply unary operator '");
    push_str(&mut msg, op.to_string().as_str());
    push_str(&mut msg, "' to ");
    push_str(&mut msg, "'");
    push_str(&mut msg, t.to_string().as_str());
    push_str(&mut msg, "'");
    proof {
        assert(msg@ =~= unary_text(*op, t@));
    }
    msg
}

fn binary_message(l: &Ty, op: &BinOp, r: &Ty) -> (s: String)
    ensures
        s@ == binary_text(l@, *op, r@),
{
    let mut msg = String::new();
    push_str(&mut msg, "no implementation for ");
    push_str(&mut msg, "'");
    push_str(&mut msg, l.to_string().as_str());
    push_str(&mut msg, "'");
    push_str(&mut msg, " ");
    push_str(&mut msg, op.to_string().as_str());
    push_str(&mut msg, " ");
    push_str(&mut msg, "'");
    push_str(&mut msg, r.to_string().as_str());
    push_str(&mut msg, "'");
    proof {
        assert(msg@ =~= binary_text(l@, *op, r@));
    }
    msg
}

fn overlap_message(l: &Ty, r: &Ty) -> (s: String)
    ensures
        s@ == overlap_text(l@, r@),
{
    let mut msg = String::new();
    push_str(&mut msg, "this comparison can never be true as ");
    push_str(&mut msg, "'");
    push_str(&mut msg, l.to_string().as_str());
    push_str(&mut msg, "'");
    push_str(&mut msg, " and ");
    push_str(&mut msg, "'");
    push_str(&mut msg, r.to_string().as_str());
    push_str(&mut msg, "'");
    push_str(&mut msg, " have no overlap");
    proof {
        assert(msg@ =~= overlap_text(l@, r@));
    }
    msg
}

fn arity_message(exp: usize, act: usize) -> (s: String)
    ensures
        s@ == arity_text(exp as nat, act as nat),
{
    let mut msg = String::new();
    push_str(&mut msg, "expected ");
    push_str(&mut msg, Args(exp).to_string().as_str());
    push_str(&mut msg, ", found ");
    push_decimal(&mut msg, act as u64);
    proof {
        assert(msg@ =~= arity_text(exp as nat, act as nat));
    }
    msg
}

fn not_func_message(t: &Ty) -> (s: String)
    ensures
        s@ == not_func_text(t@),
{
    let mut msg = String::new();
    push_str(&mut msg, "expected a function, found ");
    push_str(&mut msg, "'");
    push_str(&mut msg, t.to_string().as_str());
    push_str(&mut msg, "'");
    proof {
        assert(msg@ =~= not_func_text(t@));
    }
    msg
}

fn index_message(t: &Ty) -> (s: String)
    ensures
        s@ == index_text(t@),
{
    let mut msg = String::new();
    push_str(&mut msg, "cannot index into type ");
    push_str(&mut msg, "'");
    push_str(&mut msg, t.to_string().as_str());
    push_str(&mut msg, "'");
    proof {
        assert(msg@ =~= index_text(t@));
    }
    msg
}

impl<'a, R: DiagnosticReporter> TypeChecker<'a, R> {
    /// The checker's state is one it can go on from, and the names are
    /// distinct and few enough for symbols.
    pub open spec fn wf(&self) -> bool {
        &&& tc_wf(self.state())
        &&& self.state().sink_agrees
        &&& forall|d: u32|
            #[trigger] self.state().def_map.contains_key(d) ==> (self.state().def_map[d] matches DefV::Func {
                name,
                ..
            } ==> name < self.env().names.len())
        &&& self.env().names.len() <= u32::MAX + 1
        &&& forall|i: int, j: int|
            0 <= i < j < self.env().names.len() ==> self.env().names[i] != self.env().names[j]
    }


    /// Records the type of the expression with node id `id`.
    fn insert_type(&mut self, id: u32, ty: Ty)
        requires
            old(self).wf(),
        ensures
            final(self).wf(),
            final(self).env() == old(self).env(),
            final(self).sym_table() == old(self).sym_table(),
            final(self).state() == (TcV {
                type_map: old(self).state().type_map.insert(id, ty@),
                ..old(self).state()
            }),
    {
        let ghost t = ty@;
        self.type_map.insert(id, ty);
        proof {
            assert(self.state().type_map =~= old(self).state().type_map.insert(id, t));
        }
    }

    /// Records a definition.
    fn insert_def(&mut self, d: u32, def: Def)
        requires
            old(self).wf(),
            def_ok(def_v(def)),
            def_v(def) matches DefV::Func { name, .. } ==> name < old(self).env().names.len(),
        ensures
            final(self).wf(),
            final(self).env() == old(self).env(),
            final(self).sym_table() == old(self).sym_table(),
            final(self).state() == (TcV {
                def_map: old(self).state().def_map.insert(d, def_v(def)),
                ..old(self).state()
            }),
    {
        let ghost dv = def_v(def);
        self.def_map.insert(d, def);
        proof {
            assert(self.state().def_map =~= old(self).state().def_map.insert(d, dv));
        }
    }

    /// Ends the inference variables of the expression being checked.
    fn pop_vars(&mut self)
        requires
            old(self).wf(),
            old(self).state().ty_vars.len() > 0,
        ensures
            final(self).wf(),
            final(self).env() == old(self).env(),
            final(self).sym_table() == old(self).sym_table(),
            final(self).state() == (TcV {
                ty_vars: old(self).state().ty_vars.drop_last(),
                ..old(self).state()
            }),
    {
        self.ty_vars.pop();
        proof {
            assert(self.state().ty_vars =~= old(self).state().ty_vars.drop_last());
        }
    }

    /// Starts the inference variables of an expression of its own.
    fn start_vars(&mut self)
        requires
            old(self).wf(),
        ensures
            final(self).wf(),
            final(self).env() == old(self).env(),
            final(self).sym_table() == old(self).sym_table(),
            final(self).state() == (TcV {
                ty_vars: old(self).state().ty_vars.push(Seq::empty()),
                ..old(self).state()
            }),
    {
        self.push_vars();
        proof {
            let v = self.state().ty_vars;
            assert forall|i: int| 0 <= i < v.len() implies (#[trigger] v[i]).len() == 0 by {
                if i < v.len() - 1 {
                    assert(v[i] == old(self).state().ty_vars[i]);
                }
            }
        }
    }

    /// The inference variables of the expression being checked, which the
    /// checker keeps empty.
    proof fn lemma_no_vars(&self)
        requires
            self.wf(),
            self.state().ty_vars.len() > 0,
        ensures
            self.ty_vars@.len() == self.state().ty_vars.len(),
            self.ty_vars@[self.ty_vars@.len() - 1]@.len() == 0,
    {
        let i = self.ty_vars@.len() - 1;
        assert(self.state().ty_vars[i] == bounds_view(self.ty_vars@[i]@));
    }

    /// Reports an error with a message at a span.
    fn error_at(&mut self, message: &str, span: Span) -> (r: ErrGuaranteed)
        ensures
            final(self).state() == report_s(old(self).state(), message@, span),
            final(self).env() == old(self).env(),
            final(self).sym_table() == old(self).sym_table(),
    {
        let diagnostic = Diagnostic::error(message, span);
        proof {
            assert(crate::diagnostics::label_messages(diagnostic.secondary@) =~= Seq::<Seq<char>>::empty());
            assert(crate::diagnostics::label_spans(diagnostic.secondary@) =~= Seq::<Span>::empty());
        }
        self.report_err(diagnostic)
    }

    /// The type a definition gives a use of its name.
    fn def_ty(&mut self, def_id: DefId) -> (r: Ty)
        requires
            old(self).wf(),
            old(self).state().ty_vars.len() > 0,
            old(self).state().def_map.contains_key(def_id.0),
        ensures
            final(self).wf(),
            final(self).env() == old(self).env(),
            final(self).sym_table() == old(self).sym_table(),
            final(self).state().ty_vars.len() == old(self).state().ty_vars.len(),
            (final(self).state(), r@) == def_ty_s(old(self).state(), def_id.0),
    {
        let ghost st = self.state();
        let (n, params, ret) = match self.def_map.get(&def_id.0).unwrap() {
            Def::Var(ty) => {
                return ty.deep_clone();
            },
            Def::Func(func) => (func.ty_params.len(), clone_tys(&func.params), func.ret.deep_clone()),
        };
        proof {
            assert(def_ok(st.def_map[def_id.0]));
            assert(n == 0);
        }
        let mut vars: Vec<Ty> = Vec::new();
        let mut i: usize = 0;
        while i < n
            invariant
                i <= n,
                n == 0,
                vars@.len() == i,
                self.state() == st,
                self.env() == old(self).env(),
                self.sym_table() == old(self).sym_table(),
                self.wf(),
            decreases n - i,
        {
            vars.push(self.fresh_ty_var());
            i = i + 1;
        }
        let ghost f = st.def_map[def_id.0];
        let ghost vs = Seq::new(0, |i: int| TyTree::Var((st.ty_vars.last().len() + i) as u32));
        proof {
            assert(tys_view(vars@) =~= vs);
        }
        let mut ps: Vec<Ty> = Vec::new();
        let mut j: usize = 0;
        while j < params.len()
            invariant
                j <= params.len(),
                vars@.len() == 0,
                tys_view(vars@) == vs,
                f matches DefV::Func { params: fps, .. } && tys_view(params@) == fps && def_ok(f),
                ps@.len() == j,
                forall|k: int| 0 <= k < j ==> (#[trigger] ps@[k])@ == subst(params@[k]@, vs),
            decreases params.len() - j,
        {
            proof {
                assert(tys_view(params@)[j as int] == params@[j as int]@);
            }
            let p = self.ty_ctx.substitute_params(&params[j], vars.as_slice());
            ps.push(p);
            j = j + 1;
        }
        let ret = self.ty_ctx.substitute_params(&ret, vars.as_slice());
        let r = self.ty_ctx.mk_func(ps, ret);
        proof {
            let fps = f->Func_params;
            assert(tys_view(ps@) =~= Seq::new(fps.len(), |i: int| subst(fps[i], vs)));
            assert(st.ty_vars.last() + Seq::new(0, |i: int| (TyTree::Never, TyTree::Any)) =~= st.ty_vars.last());
            assert(fresh_vars(st.ty_vars, 0) =~= st.ty_vars);
        }
        r
    }

    /// The type of a name used as a value.
    fn var_ty(&mut self, name: Ident) -> (r: Ty)
        requires
            old(self).wf(),
            old(self).state().ty_vars.len() > 0,
        ensures
            final(self).wf(),
            final(self).env() == old(self).env(),
            final(self).sym_table() == old(self).sym_table(),
            final(self).state().ty_vars.len() == old(self).state().ty_vars.len(),
            (final(self).state(), r@) == var_ty_s(old(self).state(), old(self).env(), name),
    {
        match self.name_tables.uses.get(&name.id.0) {
            Some(Ok(def_id)) => {
                let def_id = *def_id;
                if self.def_map.contains_key(&def_id.0) {
                    self.def_ty(def_id)
                } else {
                    let err = self.error_at("this name has no checked definition", name.span);
                    self.ty_ctx.mk_error(err)
                }
            },
            Some(Err(err)) => self.ty_ctx.mk_error(*err),
            None => {
                let err = self.error_at("this name has no checked definition", name.span);
                self.ty_ctx.mk_error(err)
            },
        }
    }

    /// The type of `ast` checked against `expected`; once known for
    /// certain, it is recorded, and a mismatch with `expected` is reported.
    pub fn check_expr(&mut self, ast: &Expr, expected: Ty) -> (r: Ty)
        requires
            old(self).wf(),
            old(self).state().ty_vars.len() > 0,
            expr_syms(*ast, old(self).env().names.len()),
        ensures
            final(self).wf(),
            final(self).env() == old(self).env(),
            final(self).sym_table() == old(self).sym_table(),
            final(self).state().ty_vars.len() == old(self).state().ty_vars.len(),
            (final(self).state(), r@) == check_expr_s(old(self).state(), old(self).env(), *ast, expected@),
        decreases ast, 1nat, 0nat,
    {
        if let Some(ty) = self.type_map.get(&ast.id.0) {
            return ty.deep_clone();
        }
        proof {
            self.lemma_no_vars();
        }
        let last = self.ty_vars.len() - 1;
        let expected = if self.ty_vars[last].len() > 0 {
            self.ty_ctx.substitute_vars(&expected, self.ty_vars[last].as_slice(), Bound::Upper)
        } else {
            expected
        };
        let actual = self.check_actual(ast, &expected);
        proof {
            self.lemma_no_vars();
        }
        let last = self.ty_vars.len() - 1;
        let actual = if self.ty_vars[last].len() > 0 {
            self.ty_ctx.substitute_vars(&expected, self.ty_vars[last].as_slice(), Bound::Lower)
        } else {
            actual
        };
        if !expected.is_final() {
            return actual;
        }
        let ty = match self.ty_ctx.reconcile(&actual, &expected) {
            Ok(ty) => ty,
            Err(err) => {
                let message = err.to_string();
                let e = self.error_at(message.as_str(), ast.span);
                self.ty_ctx.mk_error(e)
            },
        };
        self.insert_type(ast.id.0, ty.deep_clone());
        ty
    }

    /// The type of `ast` inferred with nothing expected of it.
    fn infer_expr(&mut self, ast: &Expr) -> (r: Ty)
        requires
            old(self).wf(),
            old(self).state().ty_vars.len() > 0,
            expr_syms(*ast, old(self).env().names.len()),
        ensures
            final(self).wf(),
            final(self).env() == old(self).env(),
            final(self).sym_table() == old(self).sym_table(),
            final(self).state().ty_vars.len() == old(self).state().ty_vars.len(),
            (final(self).state(), r@) == check_expr_s(old(self).state(), old(self).env(), *ast, TyTree::Infer),
        decreases ast, 2nat, 0nat,
    {
        let infer = self.ty_ctx.mk_infer();
        self.check_expr(ast, infer)
    }

    /// The type `ast` has before it is reconciled with what is expected.
    fn check_actual(&mut self, ast: &Expr, expected: &Ty) -> (r: Ty)
        requires
            old(self).wf(),
            old(self).state().ty_vars.len() > 0,
            expr_syms(*ast, old(self).env().names.len()),
        ensures
            final(self).wf(),
            final(self).env() == old(self).env(),
            final(self).sym_table() == old(self).sym_table(),
            final(self).state().ty_vars.len() == old(self).state().ty_vars.len(),
            (final(self).state(), r@) == actual_s(old(self).state(), old(self).env(), *ast, expected@),
        decreases ast, 0nat, 1nat,
    {
        match &ast.node {
            ExprKind::Lit(lit) => match lit {
                Lit::Null => self.ty_ctx.mk_nullable(self.ty_ctx.mk_never()),
                Lit::Bool(_) => self.ty_ctx.mk_ty_from_kind(TyKind::Bool),
                Lit::Int(_) => self.ty_ctx.mk_int(IntTy::Int32),
                Lit::Float(_) => self.ty_ctx.mk_float(FloatTy::Float64),
                Lit::Str(_) => self.ty_ctx.mk_ty_from_kind(TyKind::Str),
                Lit::Error(err) => self.ty_ctx.mk_error(*err),
            },
            ExprKind::Var(name) => self.var_ty(*name),
            ExprKind::Unary(..) => self.check_unary(ast),
            ExprKind::Binary(..) => self.check_binary(ast),
            ExprKind::Call(..) => self.check_call(ast),
            ExprKind::Grouped(inner) => self.check_expr(inner, expected.deep_clone()),
            ExprKind::Array(exprs) => {
                let el = match expected.array_elem() {
                    Some(t) => t,
                    None => self.ty_ctx.mk_infer(),
                };
                let t = self.check_elems(exprs, &el);
                self.ty_ctx.mk_array(t)
            },
            ExprKind::Index(..) => self.check_index(ast),
            ExprKind::If { .. } => self.check_if(ast, expected),
            ExprKind::Block(block) => self.check_block(block, expected.deep_clone()),
        }
    }

    fn check_unary(&mut self, ast: &Expr) -> (r: Ty)
        requires
            old(self).wf(),
            old(self).state().ty_vars.len() > 0,
            expr_syms(*ast, old(self).env().names.len()),
            ast.node is Unary,
        ensures
            final(self).wf(),
            final(self).env() == old(self).env(),
            final(self).sym_table() == old(self).sym_table(),
            final(self).state().ty_vars.len() == old(self).state().ty_vars.len(),
            (final(self).state(), r@) == actual_s(old(self).state(), old(self).env(), *ast, TyTree::Infer),
        decreases ast, 0nat, 0nat,
    {
        if let ExprKind::Unary(op, rhs, span) = &ast.node {
            let rhs_ty = self.infer_expr(rhs);
            let ok = match (op, &*rhs_ty.0) {
                (UnaryOp::Not, TyKind::Bool) => true,
                (UnaryOp::Negate, TyKind::Int(_)) => true,
                (UnaryOp::Negate, TyKind::UInt(_)) => true,
                (UnaryOp::Negate, TyKind::Float(_)) => true,
                _ => false,
            };
            if ok {
                rhs_ty
            } else {
                let msg = unary_message(op, &rhs_ty);
                let err = self.error_at(msg.as_str(), *span);
                self.ty_ctx.mk_error(err)
            }
        } else {
            proof {
                assert(false);
            }
            self.ty_ctx.mk_infer()
        }
    }

    fn check_binary(&mut self, ast: &Expr) -> (r: Ty)
        requires
            old(self).wf(),
            old(self).state().ty_vars.len() > 0,
            expr_syms(*ast, old(self).env().names.len()),
            ast.node is Binary,
        ensures
            final(self).wf(),
            final(self).env() == old(self).env(),
            final(self).sym_table() == old(self).sym_table(),
            final(self).state().ty_vars.len() == old(self).state().ty_vars.len(),
            (final(self).state(), r@) == actual_s(old(self).state(), old(self).env(), *ast, TyTree::Infer),
        decreases ast, 0nat, 0nat,
    {
        if let ExprKind::Binary(op, lhs, rhs, span) = &ast.node {
            let l = self.infer_expr(lhs);
            let r = self.infer_expr(rhs);
            match op {
                BinOp::Add | BinOp::Sub | BinOp::Mul | BinOp::Div => {
                    if ty_eq(&l, &r) {
                        l
                    } else {
                        let msg = binary_message(&l, op, &r);
                        let err = self.error_at(msg.as_str(), *span);
                        self.ty_ctx.mk_error(err)
                    }
                },
                BinOp::Eq | BinOp::NotEq => {
                    if self.ty_ctx.meet(&l, &r).is_never() {
                        let msg = overlap_message(&l, &r);
                        let diagnostic = Diagnostic::warning(msg.as_str(), *span);
                        proof {
                            assert(crate::diagnostics::label_messages(diagnostic.secondary@) =~= Seq::<Seq<char>>::empty());
                            assert(crate::diagnostics::label_spans(diagnostic.secondary@) =~= Seq::<Span>::empty());
                        }
                        self.report(diagnostic);
                    }
                    self.ty_ctx.mk_ty_from_kind(TyKind::Bool)
                },
                _ => self.ty_ctx.mk_ty_from_kind(TyKind::Bool),
            }
        } else {
            proof {
                assert(false);
            }
            self.ty_ctx.mk_infer()
        }
    }

    fn check_call(&mut self, ast: &Expr) -> (r: Ty)
        requires
            old(self).wf(),
            old(self).state().ty_vars.len() > 0,
            expr_syms(*ast, old(self).env().names.len()),
            ast.node is Call,
        ensures
            final(self).wf(),
            final(self).env() == old(self).env(),
            final(self).sym_table() == old(self).sym_table(),
            final(self).state().ty_vars.len() == old(self).state().ty_vars.len(),
            (final(self).state(), r@) == actual_s(old(self).state(), old(self).env(), *ast, TyTree::Infer),
        decreases ast, 0nat, 0nat,
    {
        if let ExprKind::Call(func, args, span) = &ast.node {
            let func_ty = self.infer_expr(func);
            proof {
                crate::types::ty::lemma_view_lists(func_ty);
            }
            match &*func_ty.0 {
                TyKind::Func(f) => {
                    if f.params.len() != args.len() {
                        let msg = arity_message(f.params.len(), args.len());
                        self.error_at(msg.as_str(), *span);
                    }
                    self.check_args(args, &f.params);
                    f.ret.deep_clone()
                },
                TyKind::Error(err) => {
                    let none: Vec<Ty> = Vec::new();
                    self.check_args(args, &none);
                    proof {
                        assert(tys_view(none@) =~= Seq::<TyTree>::empty());
                    }
                    self.ty_ctx.mk_error(*err)
                },
                _ => {
                    let msg = not_func_message(&func_ty);
                    let err = self.error_at(msg.as_str(), func.span);
                    let none: Vec<Ty> = Vec::new();
                    self.check_args(args, &none);
                    proof {
                        assert(tys_view(none@) =~= Seq::<TyTree>::empty());
                    }
                    self.ty_ctx.mk_error(err)
                },
            }
        } else {
            proof {
                assert(false);
            }
            self.ty_ctx.mk_infer()
        }
    }

    /// Checks the arguments of a call, each against the parameter type at
    /// its position, or `_` past the end of `params`.
    fn check_args(&mut self, args: &Vec<Expr>, params: &Vec<Ty>)
        requires
            old(self).wf(),
            old(self).state().ty_vars.len() > 0,
            forall|i: int| 0 <= i < args@.len() ==> expr_syms(#[trigger] args@[i], old(self).env().names.len()),
        ensures
            final(self).wf(),
            final(self).env() == old(self).env(),
            final(self).sym_table() == old(self).sym_table(),
            final(self).state().ty_vars.len() == old(self).state().ty_vars.len(),
            final(self).state() == args_s(old(self).state(), old(self).env(), *args, 0, tys_view(params@)),
        decreases args, 0nat, 0nat,
    {
        let ghost env = self.env();
        let ghost ps = tys_view(params@);
        let mut i: usize = 0;
        while i < args.len()
            invariant
                i <= args.len(),
                self.wf(),
                self.env() == env,
                env == old(self).env(),
                ps == tys_view(params@),
                self.sym_table() == old(self).sym_table(),
                self.state().ty_vars.len() == old(self).state().ty_vars.len(),
                old(self).state().ty_vars.len() > 0,
                forall|i: int| 0 <= i < args@.len() ==> expr_syms(#[trigger] args@[i], env.names.len()),
                args_s(old(self).state(), env, *args, 0, ps) == args_s(self.state(), env, *args, i as int, ps),
            decreases args.len() - i,
        {
            let exp = if i < params.len() {
                params[i].deep_clone()
            } else {
                self.ty_ctx.mk_infer()
            };
            self.check_expr(&args[i], exp);
            i = i + 1;
        }
    }

    /// Checks the elements of an array against `el`; the join of their types.
    fn check_elems(&mut self, es: &Vec<Expr>, el: &Ty) -> (r: Ty)
        requires
            old(self).wf(),
            old(self).state().ty_vars.len() > 0,
            forall|i: int| 0 <= i < es@.len() ==> expr_syms(#[trigger] es@[i], old(self).env().names.len()),
        ensures
            final(self).wf(),
            final(self).env() == old(self).env(),
            final(self).sym_table() == old(self).sym_table(),
            final(self).state().ty_vars.len() == old(self).state().ty_vars.len(),
            (final(self).state(), r@) == elems_s(old(self).state(), old(self).env(), *es, 0, el@, TyTree::Never),
        decreases es, 0nat, 0nat,
    {
        let ghost env = self.env();
        let mut acc = self.ty_ctx.mk_never();
        let mut i: usize = 0;
        while i < es.len()
            invariant
                i <= es.len(),
                self.wf(),
                self.env() == env,
                env == old(self).env(),
                self.sym_table() == old(self).sym_table(),
                self.state().ty_vars.len() == old(self).state().ty_vars.len(),
                old(self).state().ty_vars.len() > 0,
                forall|i: int| 0 <= i < es@.len() ==> expr_syms(#[trigger] es@[i], env.names.len()),
                elems_s(old(self).state(), env, *es, 0, el@, TyTree::Never) == elems_s(self.state(), env, *es, i as int, el@, acc@),
            decreases es.len() - i,
        {
            let t = self.check_expr(&es[i], el.deep_clone());
            acc = self.ty_ctx.join(&acc, &t);
            i = i + 1;
        }
        acc
    }

    fn check_index(&mut self, ast: &Expr) -> (r: Ty)
        requires
            old(self).wf(),
            old(self).state().ty_vars.len() > 0,
            expr_syms(*ast, old(self).env().names.len()),
            ast.node is Index,
        ensures
            final(self).wf(),
            final(self).env() == old(self).env(),
            final(self).sym_table() == old(self).sym_table(),
            final(self).state().ty_vars.len() == old(self).state().ty_vars.len(),
            (final(self).state(), r@) == actual_s(old(self).state(), old(self).env(), *ast, TyTree::Infer),
        decreases ast, 0nat, 0nat,
    {
        if let ExprKind::Index(array, index) = &ast.node {
            let array_ty = self.infer_expr(array);
            let int64 = self.ty_ctx.mk_int(IntTy::Int64);
            self.check_expr(index, int64);
            match &*array_ty.0 {
                TyKind::Array(el) => el.deep_clone(),
                TyKind::Error(_) => array_ty,
                _ => {
                    let msg = index_message(&array_ty);
                    let err = self.error_at(msg.as_str(), array.span);
                    self.ty_ctx.mk_error(err)
                },
            }
        } else {
            proof {
                assert(false);
            }
            self.ty_ctx.mk_infer()
        }
    }

    fn check_if(&mut self, ast: &Expr, expected: &Ty) -> (r: Ty)
        requires
            old(self).wf(),
            old(self).state().ty_vars.len() > 0,
            expr_syms(*ast, old(self).env().names.len()),
            ast.node is If,
        ensures
            final(self).wf(),
            final(self).env() == old(self).env(),
            final(self).sym_table() == old(self).sym_table(),
            final(self).state().ty_vars.len() == old(self).state().ty_vars.len(),
            (final(self).state(), r@) == actual_s(old(self).state(), old(self).env(), *ast, expected@),
        decreases ast, 0nat, 0nat,
    {
        if let ExprKind::If { cond, then, els } = &ast.node {
            let b = self.ty_ctx.mk_ty_from_kind(TyKind::Bool);
            self.check_expr(cond, b);
            let then_ty = self.check_expr(then, expected.deep_clone());
            let else_ty = match els {
                Some(x) => self.check_expr(x, expected.deep_clone()),
                None => {
                    let none: Vec<Ty> = Vec::new();
                    proof {
                        assert(tys_view(none@) =~= Seq::<TyTree>::empty());
                    }
                    self.ty_ctx.mk_tuple(none)
                },
            };
            self.ty_ctx.join(&then_ty, &else_ty)
        } else {
            proof {
                assert(false);
            }
            self.ty_ctx.mk_infer()
        }
    }

    /// Checks a block against `expected`: its statements, then its tail.
    pub fn check_block(&mut self, ast: &Block, expected: Ty) -> (r: Ty)
        requires
            old(self).wf(),
            block_syms(*ast, old(self).env().names.len()),
        ensures
            final(self).wf(),
            final(self).env() == old(self).env(),
            final(self).sym_table() == old(self).sym_table(),
            final(self).state().ty_vars.len() == old(self).state().ty_vars.len(),
            (final(self).state(), r@) == check_block_s(old(self).state(), old(self).env(), *ast, expected@),
        decreases ast, 0nat, 0nat,
    {
        self.check_stmts(&ast.stmts);
        match &ast.tail {
            Some(tail) => self.check_toplevel_expr(tail, expected),
            None => {
                let none: Vec<Ty> = Vec::new();
                proof {
                    assert(tys_view(none@) =~= Seq::<TyTree>::empty());
                }
                self.ty_ctx.mk_tuple(none)
            },
        }
    }

    fn check_stmts(&mut self, stmts: &Vec<Stmt>)
        requires
            old(self).wf(),
            forall|i: int| 0 <= i < stmts@.len() ==> stmt_syms(#[trigger] stmts@[i], old(self).env().names.len()),
        ensures
            final(self).wf(),
            final(self).env() == old(self).env(),
            final(self).sym_table() == old(self).sym_table(),
            final(self).state().ty_vars.len() == old(self).state().ty_vars.len(),
            final(self).state() == stmts_s(old(self).state(), old(self).env(), *stmts, 0),
        decreases stmts, 0nat, 0nat,
    {
        let ghost env = self.env();
        let mut i: usize = 0;
        while i < stmts.len()
            invariant
                i <= stmts.len(),
                self.wf(),
                self.env() == env,
                env == old(self).env(),
                self.sym_table() == old(self).sym_table(),
                self.state().ty_vars.len() == old(self).state().ty_vars.len(),
                forall|i: int| 0 <= i < stmts@.len() ==> stmt_syms(#[trigger] stmts@[i], env.names.len()),
                stmts_s(old(self).state(), env, *stmts, 0) == stmts_s(self.state(), env, *stmts, i as int),
            decreases stmts.len() - i,
        {
            self.check_stmt(&stmts[i]);
            i = i + 1;
        }
    }

    #[verifier::rlimit(40)]
    fn check_stmt(&mut self, ast: &Stmt)
        requires
            old(self).wf(),
            stmt_syms(*ast, old(self).env().names.len()),
        ensures
            final(self).wf(),
            final(self).env() == old(self).env(),
            final(self).sym_table() == old(self).sym_table(),
            final(self).state().ty_vars.len() == old(self).state().ty_vars.len(),
            final(self).state() == stmt_s(old(self).state(), old(self).env(), *ast),
        decreases ast, 0nat, 1nat,
    {
        match &ast.node {
            StmtKind::Expr(expr) => {
                let infer = self.ty_ctx.mk_infer();
                self.check_toplevel_expr(expr, infer);
            },
            StmtKind::Let(..) => self.check_let(ast),
            StmtKind::Assign(lhs, rhs) => {
                let expected = match self.name_tables.uses.get(&lhs.id.0) {
                    Some(Ok(def_id)) => match self.def_map.get(&def_id.0) {
                        Some(Def::Var(t)) => t.deep_clone(),
                        _ => self.ty_ctx.mk_infer(),
                    },
                    _ => self.ty_ctx.mk_infer(),
                };
                self.check_toplevel_expr(rhs, expected);
            },
        }
    }

    fn check_let(&mut self, ast: &Stmt)
        requires
            old(self).wf(),
            stmt_syms(*ast, old(self).env().names.len()),
            ast.node is Let,
        ensures
            final(self).wf(),
            final(self).env() == old(self).env(),
            final(self).sym_table() == old(self).sym_table(),
            final(self).state().ty_vars.len() == old(self).state().ty_vars.len(),
            final(self).state() == stmt_s(old(self).state(), old(self).env(), *ast),
        decreases ast, 0nat, 0nat,
    {
        if let StmtKind::Let(name, ty, value, _) = &ast.node {
            let expected = match ty {
                Some(t) => self.lower_ty(t),
                None => self.ty_ctx.mk_infer(),
            };
            let t = self.check_toplevel_expr(value, expected);
            match self.name_tables.uses.get(&name.id.0) {
                Some(Ok(def_id)) => {
                    let d = def_id.0;
                    self.insert_def(d, Def::Var(t));
                },
                _ => {},
            }
        }
    }

    /// Checks an expression of its own: with a new list of inference
    /// variables, again and again until its type is known, ten times at most.
    fn check_toplevel_expr(&mut self, ast: &Expr, expected: Ty) -> (r: Ty)
        requires
            old(self).wf(),
            expr_syms(*ast, old(self).env().names.len()),
        ensures
            final(self).wf(),
            final(self).env() == old(self).env(),
            final(self).sym_table() == old(self).sym_table(),
            final(self).state().ty_vars.len() == old(self).state().ty_vars.len(),
            (final(self).state(), r@) == toplevel_s(old(self).state(), old(self).env(), *ast, expected@),
        decreases ast, 3nat, 0nat,
    {
        let ghost env = self.env();
        self.start_vars();
        let ghost st1 = self.state();
        let mut ret = self.ty_ctx.mk_pending();
        let mut cnt: u32 = 0;
        loop
            invariant_except_break
                toplevel_loop_s(st1, env, *ast, expected@, TyTree::Pending, 0) == toplevel_loop_s(
                    self.state(),
                    env,
                    *ast,
                    expected@,
                    ret@,
                    cnt as nat,
                ),
            invariant
                cnt <= 10,
                self.wf(),
                self.env() == env,
                env == old(self).env(),
                self.sym_table() == old(self).sym_table(),
                self.state().ty_vars.len() == old(self).state().ty_vars.len() + 1,
                expr_syms(*ast, env.names.len()),
            ensures
                self.wf(),
                self.env() == env,
                self.sym_table() == old(self).sym_table(),
                self.state().ty_vars.len() == old(self).state().ty_vars.len() + 1,
                toplevel_loop_s(st1, env, *ast, expected@, TyTree::Pending, 0) == (self.state(), ret@),
            decreases 10 - cnt,
        {
            if ret.is_final() {
                break;
            }
            if cnt == 10 {
                self.error_at("hit iteration limit", Span::dummy());
                break;
            }
            let exp = expected.deep_clone();
            ret = self.check_expr(ast, exp);
            cnt = cnt + 1;
        }
        self.pop_vars();
        ret
    }

    /// The definitions recorded so far.
    pub fn def_map(&self) -> (r: &HashMap<u32, Def>)
        ensures
            r@.map_values(|d: Def| def_v(d)) == self.state().def_map,
    {
        &self.def_map
    }

    /// Checks a program: records the built-in `print`, the signatures of
    /// all its functions, then checks their bodies.
    pub fn check_program(&mut self, ast: &Program)
        requires
            old(self).wf(),
            program_syms(*ast, old(self).env().names.len()),
            forall|i: int| 0 <= i < ast.funcs@.len() ==> (#[trigger] ast.funcs@[i]).ty_params@.len() == 0,
        ensures
            final(self).wf(),
            final(self).env() == old(self).env(),
            final(self).sym_table() == old(self).sym_table(),
            final(self).state() == program_s(old(self).state(), old(self).env(), *ast),
    {
        proof {
            reveal(program_s);
        }
        let ghost env = self.env();
        if let Some(def_id) = self.name_tables.print_def_id {
            if let Some(sym) = self.sym_table.find_str::<Symbol>("print") {
                let none: Vec<Ident> = Vec::new();
                let params: Vec<Ty> = vec![self.ty_ctx.mk_any()];
                let empty: Vec<Ty> = Vec::new();
                let unit = self.ty_ctx.mk_tuple(empty);
                let func = FuncDef::new(sym, none, params, unit);
                proof {
                    let names = env.names;
                    let k = names.index_of("print"@);
                    assert(names.contains("print"@));
                    assert(0 <= k < names.len() && names[k] == "print"@);
                    assert(k == sym.index_of());
                    assert(tys_view(params@) =~= seq![TyTree::Any]);
                    assert(tys_view(empty@) =~= Seq::<TyTree>::empty());
                    assert(func.ty_params() =~= Seq::<Ident>::empty());
                    assert(tys_view(func.params()) =~= seq![TyTree::Any]);
                    reveal_with_fuel(params_below, 2);
                }
                self.insert_def(def_id.0, Def::Func(func));
            }
        }
        let ghost st1 = self.state();
        let n = ast.funcs.len();
        let mut i: usize = 0;
        while i < n
            invariant
                n == ast.funcs@.len(),
                i <= n,
                self.wf(),
                self.env() == env,
                env == old(self).env(),
                self.sym_table() == old(self).sym_table(),
                program_syms(*ast, env.names.len()),
                forall|i: int| 0 <= i < ast.funcs@.len() ==> (#[trigger] ast.funcs@[i]).ty_params@.len() == 0,
                self.state() == sigs_s(st1, env, ast.funcs@, i as int),
            decreases n - i,
        {
            assert(func_syms(ast.funcs@[i as int], env.names.len()));
            self.check_func_signature(&ast.funcs[i]);
            i = i + 1;
        }
        let ghost st2 = self.state();
        let mut j: usize = 0;
        while j < n
            invariant
                n == ast.funcs@.len(),
                j <= n,
                self.wf(),
                self.env() == env,
                env == old(self).env(),
                self.sym_table() == old(self).sym_table(),
                program_syms(*ast, env.names.len()),
                forall|i: int| 0 <= i < ast.funcs@.len() ==> (#[trigger] ast.funcs@[i]).ty_params@.len() == 0,
                self.state() == bodies_s(st2, env, ast.funcs@, j as int),
            decreases n - j,
        {
            assert(func_syms(ast.funcs@[j as int], env.names.len()));
            self.check_func_body(&ast.funcs[j]);
            j = j + 1;
        }
    }

    /// The type of what a function returns.
    fn lower_ret(&mut self, ret: &Option<crate::ast::Ty>, ty_params: &Vec<Ident>) -> (r: Ty)
        requires
            old(self).wf(),
            ty_params@.len() == 0,
            *ret matches Some(t) ==> ty_syms(t, old(self).env().names.len()),
        ensures
            final(self).wf(),
            final(self).env() == old(self).env(),
            final(self).sym_table() == old(self).sym_table(),
            (final(self).state(), r@) == lower_ret_s(old(self).state(), old(self).env(), *ret),
            params_below(r@, 0),
    {
        proof {
            assert(ty_params@ =~= Seq::<Ident>::empty());
        }
        match ret {
            Some(t) => {
                proof {
                    lemma_lower_no_params(*t, self.env().names);
                }
                self.lower_ty_with_params(t, ty_params.as_slice())
            },
            None => {
                let empty: Vec<Ty> = Vec::new();
                proof {
                    assert(tys_view(empty@) =~= Seq::<TyTree>::empty());
                }
                self.ty_ctx.mk_tuple(empty)
            },
        }
    }

    /// Records the signature of a function under its definition.
    pub fn check_func_signature(&mut self, ast: &Func)
        requires
            old(self).wf(),
            func_syms(*ast, old(self).env().names.len()),
            ast.ty_params@.len() == 0,
        ensures
            final(self).wf(),
            final(self).env() == old(self).env(),
            final(self).sym_table() == old(self).sym_table(),
            final(self).state() == sig_s(old(self).state(), old(self).env(), *ast),
    {
        let ghost env = self.env();
        proof {
            assert(ast.ty_params@ =~= Seq::<Ident>::empty());
        }
        let mut param_tys: Vec<Ty> = Vec::new();
        let mut i: usize = 0;
        proof {
            assert(tys_view(param_tys@) =~= Seq::<TyTree>::empty());
        }
        while i < ast.params.len()
            invariant
                i <= ast.params@.len(),
                self.wf(),
                self.env() == env,
                env == old(self).env(),
                self.sym_table() == old(self).sym_table(),
                func_syms(*ast, env.names.len()),
                ast.ty_params@ == Seq::<Ident>::empty(),
                (self.state(), tys_view(param_tys@)) == lower_params_s(old(self).state(), env, ast.params@, i as int),
                forall|k: int| 0 <= k < param_tys@.len() ==> params_below(#[trigger] param_tys@[k]@, 0),
            decreases ast.params@.len() - i,
        {
            let ghost p = ast.params@[i as int];
            proof {
                assert(ty_syms(p.1, env.names.len()));
                lemma_lower_no_params(p.1, env.names);
            }
            let ghost before = tys_view(param_tys@);
            let t = self.lower_ty_with_params(&ast.params[i].1, ast.ty_params.as_slice());
            param_tys.push(t);
            proof {
                assert(tys_view(param_tys@) =~= before.push(t@));
            }
            i = i + 1;
        }
        let ret = self.lower_ret(&ast.ret, &ast.ty_params);
        match self.name_tables.uses.get(&ast.name.id.0) {
            Some(Ok(def_id)) => {
                let d = def_id.0;
                let none: Vec<Ident> = Vec::new();
                let ghost ps = tys_view(param_tys@);
                let func = FuncDef::new(ast.name.sym, none, param_tys, ret);
                proof {
                    assert(func.ty_params() =~= ast.ty_params@);
                    assert forall|k: int| 0 <= k < tys_view(func.params()).len() implies params_below(
                        #[trigger] tys_view(func.params())[k],
                        0,
                    ) by {
                        assert(tys_view(func.params())[k] == ps[k]);
                    }
                }
                self.insert_def(d, Def::Func(func));
            },
            _ => {},
        }
    }

    /// Checks the body of a function against what it returns, its
    /// parameters recorded with their types.
    pub fn check_func_body(&mut self, ast: &Func)
        requires
            old(self).wf(),
            func_syms(*ast, old(self).env().names.len()),
            ast.ty_params@.len() == 0,
        ensures
            final(self).wf(),
            final(self).env() == old(self).env(),
            final(self).sym_table() == old(self).sym_table(),
            final(self).state() == body_s(old(self).state(), old(self).env(), *ast),
    {
        let ghost env = self.env();
        proof {
            assert(ast.ty_params@ =~= Seq::<Ident>::empty());
        }
        let mut i: usize = 0;
        while i < ast.params.len()
            invariant
                i <= ast.params@.len(),
                self.wf(),
                self.env() == env,
                env == old(self).env(),
                self.sym_table() == old(self).sym_table(),
                func_syms(*ast, env.names.len()),
                ast.ty_params@ == Seq::<Ident>::empty(),
                self.state() == body_params_s(old(self).state(), env, ast.params@, i as int),
            decreases ast.params@.len() - i,
        {
            let ghost p = ast.params@[i as int];
            proof {
                assert(ty_syms(p.1, env.names.len()));
            }
            let name = ast.params[i].0;
            let t = self.lower_ty_with_params(&ast.params[i].1, ast.ty_params.as_slice());
            match self.name_tables.uses.get(&name.id.0) {
                Some(Ok(def_id)) => {
                    let d = def_id.0;
                    self.insert_def(d, Def::Var(t));
                },
                _ => {},
            }
            i = i + 1;
        }
        let ret = self.lower_ret(&ast.ret, &ast.ty_params);
        self.check_block(&ast.body, ret);
    }
}

} // verus!
