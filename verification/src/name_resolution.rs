//! Names and their definitions: which definition each use of a name refers
//! to, in nested scopes.
use vstd::prelude::*;

use std::collections::HashMap;

use crate::ast::sexpr::{block_syms, expr_syms, func_syms, program_syms, stmt_syms};
use crate::ast::{Block, Expr, ExprKind, Func, Ident, Mutability, NodeId, Program, Stmt, StmtKind};
use crate::diagnostics::{
    diag_view, lemma_err_unique, some_err, DiagView, Diagnostic, DiagnosticReporter, ErrGuaranteed, Level,
};
use crate::interner::{Index, SymTable};
use crate::span::Span;
use crate::text::push_str;

verus! {

broadcast use vstd::std_specs::hash::group_hash_axioms;

/// Identifies a definition.
#[derive(Clone, Copy, PartialEq, Eq, Structural, Hash, Debug)]
pub struct DefId(pub u32);

/// How a name was bound: whether it may be assigned to, and where.
#[derive(Clone, PartialEq, Eq, Structural, Debug)]
pub struct BindingInfo {
    pub mutability: Mutability,
    pub span: Span,
}

/// What name resolution produces: the definitions, the definition each use
/// of a name refers to (by node id), the names met, in order, and the
/// definition of the built-in `print`.
pub struct NameTables {
    pub defs: HashMap<u32, BindingInfo>,
    pub uses: HashMap<u32, Result<DefId, ErrGuaranteed>>,
    pub idents: Vec<Ident>,
    pub print_def_id: Option<DefId>,
}

/// The state of name resolution, as values.
pub struct ResV {
    pub defs: Map<u32, BindingInfo>,
    pub uses: Map<u32, Result<DefId, ErrGuaranteed>>,
    pub scopes: Seq<Map<usize, DefId>>,
    pub idents: Seq<Ident>,
    pub next: u32,
    pub print: Option<DefId>,
    pub reports: Seq<DiagView>,
    /// Whether the sink holds what it held when resolution started,
    /// followed by `reports`.
    pub sink_agrees: bool,
}

/// The id after `n`.
pub open spec fn bump(n: u32) -> u32 {
    if n == u32::MAX {
        0
    } else {
        (n + 1) as u32
    }
}

/// The key of a symbol in a scope.
pub open spec fn sym_key(sym: crate::ast::Symbol) -> usize {
    sym.index_of() as usize
}

/// The definition a name has in the innermost scope that defines it.
pub open spec fn find_in(scopes: Seq<Map<usize, DefId>>, key: usize) -> Option<DefId>
    decreases scopes.len(),
{
    if scopes.len() == 0 {
        None
    } else if scopes.last().contains_key(key) {
        Some(scopes.last()[key])
    } else {
        find_in(scopes.drop_last(), key)
    }
}

pub open spec fn push_scope_s(st: ResV) -> ResV {
    ResV { scopes: st.scopes.push(Map::empty()), ..st }
}

pub open spec fn pop_scope_s(st: ResV) -> ResV {
    if st.scopes.len() > 0 {
        ResV { scopes: st.scopes.drop_last(), ..st }
    } else {
        st
    }
}

pub open spec fn push_ident_s(st: ResV, ident: Ident) -> ResV {
    ResV { idents: st.idents.push(ident), ..st }
}

/// A new definition of `ident` in the innermost scope.
pub open spec fn define_s(st: ResV, ident: Ident, m: Mutability) -> ResV {
    let d = DefId(st.next);
    ResV {
        defs: st.defs.insert(st.next, BindingInfo { mutability: m, span: ident.span }),
        uses: st.uses.insert(ident.id.0, Ok(d)),
        scopes: st.scopes.update(
            st.scopes.len() - 1,
            st.scopes.last().insert(sym_key(ident.sym), d),
        ),
        next: bump(st.next),
        ..st
    }
}

/// The message for a name that is not in scope.
pub open spec fn not_found_text(name: Seq<char>) -> Seq<char> {
    "cannot find `"@ + name + "` in this scope"@
}

/// Records what a use of `ident` refers to, reporting it if nothing does.
pub open spec fn resolve_name_s(st: ResV, ident: Ident, names: Seq<Seq<char>>) -> ResV {
    match find_in(st.scopes, sym_key(ident.sym)) {
        Some(d) => ResV { uses: st.uses.insert(ident.id.0, Ok(d)), ..st },
        None => ResV {
            uses: st.uses.insert(ident.id.0, Err(some_err())),
            reports: st.reports.push(
                DiagView {
                    level: Level::Error,
                    message: not_found_text(names[ident.sym.index_of() as int]),
                    span: ident.span,
                    label_messages: Seq::empty(),
                    label_spans: Seq::empty(),
                },
            ),
            ..st
        },
    }
}

pub open spec fn res_expr_s(st: ResV, e: Expr, names: Seq<Seq<char>>) -> ResV
    decreases e, 0nat,
{
    match e.node {
        ExprKind::Lit(_) => st,
        ExprKind::Var(name) => resolve_name_s(push_ident_s(st, name), name, names),
        ExprKind::Unary(_, rhs, _) => res_expr_s(st, *rhs, names),
        ExprKind::Binary(_, lhs, rhs, _) => res_expr_s(res_expr_s(st, *lhs, names), *rhs, names),
        ExprKind::Call(func, args, _) => res_exprs_s(
            res_expr_s(st, *func, names),
            args,
            0,
            names,
        ),
        ExprKind::Grouped(inner) => res_expr_s(st, *inner, names),
        ExprKind::Array(elems) => res_exprs_s(st, elems, 0, names),
        ExprKind::Index(a, i) => res_expr_s(res_expr_s(st, *a, names), *i, names),
        ExprKind::If { cond, then, els } => {
            let st2 = res_expr_s(res_expr_s(st, *cond, names), *then, names);
            match els {
                Some(x) => res_expr_s(st2, *x, names),
                None => st2,
            }
        },
        ExprKind::Block(b) => res_block_s(st, b, names),
    }
}

/// Resolves the expressions `es[i..]` in order.
pub open spec fn res_exprs_s(st: ResV, es: Vec<Expr>, i: int, names: Seq<Seq<char>>) -> ResV
    decreases es, es@.len() - i,
{
    if 0 <= i < es@.len() {
        res_exprs_s(res_expr_s(st, es@[i], names), es, i + 1, names)
    } else {
        st
    }
}

pub open spec fn res_block_s(st: ResV, b: Block, names: Seq<Seq<char>>) -> ResV
    decreases b, 0nat,
{
    let st1 = res_stmts_s(push_scope_s(st), b.stmts, 0, names);
    let st2 = match b.tail {
        Some(t) => res_expr_s(st1, *t, names),
        None => st1,
    };
    pop_scope_s(st2)
}

/// Resolves the statements `ss[i..]` in order.
pub open spec fn res_stmts_s(st: ResV, ss: Vec<Stmt>, i: int, names: Seq<Seq<char>>) -> ResV
    decreases ss, ss@.len() - i,
{
    if 0 <= i < ss@.len() {
        res_stmts_s(res_stmt_s(st, ss@[i], names), ss, i + 1, names)
    } else {
        st
    }
}

/// The message for an assignment to a name that was not declared `var`.
pub open spec fn immutable_report(at: Span, declared: Span) -> DiagView {
    DiagView {
        level: Level::Error,
        message: "cannot assign to immutable binding"@,
        span: at,
        label_messages: seq!["variable was declared here"@],
        label_spans: seq![declared],
    }
}

pub open spec fn res_stmt_s(st: ResV, s: Stmt, names: Seq<Seq<char>>) -> ResV
    decreases s, 0nat,
{
    match s.node {
        StmtKind::Expr(e) => res_expr_s(st, *e, names),
        StmtKind::Let(name, _, value, m) => define_s(
            res_expr_s(push_ident_s(st, name), *value, names),
            name,
            m,
        ),
        StmtKind::Assign(name, rhs) => {
            let st1 = res_expr_s(push_ident_s(st, name), *rhs, names);
            let st2 = resolve_name_s(st1, name, names);
            match find_in(st1.scopes, sym_key(name.sym)) {
                Some(d) => if st2.defs[d.0].mutability == Mutability::Not {
                    ResV {
                        reports: st2.reports.push(immutable_report(name.span, st2.defs[d.0].span)),
                        ..st2
                    }
                } else {
                    st2
                },
                None => st2,
            }
        },
    }
}

/// Defines the parameters `ps[i..]` in order.
pub open spec fn define_params_s(st: ResV, ps: Seq<(Ident, crate::ast::Ty)>, i: int) -> ResV
    decreases ps.len() - i,
{
    if 0 <= i < ps.len() {
        define_params_s(define_s(st, ps[i].0, Mutability::Not), ps, i + 1)
    } else {
        st
    }
}

pub open spec fn res_func_s(st: ResV, f: Func, names: Seq<Seq<char>>) -> ResV {
    pop_scope_s(res_block_s(define_params_s(push_scope_s(st), f.params@, 0), f.body, names))
}

/// Defines the names of the functions `fs[i..]`, an id being set aside
/// before each.
pub open spec fn define_funcs_s(st: ResV, fs: Seq<Func>, i: int) -> ResV
    decreases fs.len() - i,
{
    if 0 <= i < fs.len() {
        let st1 = ResV { next: bump(st.next), ..st };
        define_funcs_s(define_s(st1, fs[i].name, Mutability::Not), fs, i + 1)
    } else {
        st
    }
}

/// Resolves the bodies of the functions `fs[i..]` in order.
pub open spec fn res_funcs_s(st: ResV, fs: Seq<Func>, i: int, names: Seq<Seq<char>>) -> ResV
    decreases fs.len() - i,
{
    if 0 <= i < fs.len() {
        res_funcs_s(res_func_s(st, fs[i], names), fs, i + 1, names)
    } else {
        st
    }
}

/// Defines the built-in `print`, where the table holds its name.
pub open spec fn define_print_s(st: ResV, names: Seq<Seq<char>>) -> ResV {
    if names.contains("print"@) {
        let d = DefId(st.next);
        ResV {
            defs: st.defs.insert(
                st.next,
                BindingInfo { mutability: Mutability::Not, span: Span::dummy_spec() },
            ),
            scopes: st.scopes.update(
                st.scopes.len() - 1,
                st.scopes.last().insert(names.index_of("print"@) as usize, d),
            ),
            next: bump(st.next),
            print: Some(d),
            ..st
        }
    } else {
        st
    }
}

#[verifier::opaque]
pub open spec fn res_program_s(st: ResV, p: Program, names: Seq<Seq<char>>) -> ResV {
    let st1 = define_funcs_s(define_print_s(push_scope_s(st), names), p.funcs@, 0);
    pop_scope_s(res_funcs_s(st1, p.funcs@, 0, names))
}

/// Every definition a scope holds is recorded.
pub open spec fn scopes_defined(st: ResV) -> bool {
    forall|i: int, k: usize|
        0 <= i < st.scopes.len() && #[trigger] st.scopes[i].contains_key(k) ==> st.defs.contains_key(
            st.scopes[i][k].0,
        )
}

pub proof fn lemma_find_in_defined(st: ResV, key: usize)
    requires
        scopes_defined(st),
    ensures
        find_in(st.scopes, key) matches Some(d) ==> st.defs.contains_key(d.0),
    decreases st.scopes.len(),
{
    if st.scopes.len() > 0 && !st.scopes.last().contains_key(key) {
        let st1 = ResV { scopes: st.scopes.drop_last(), ..st };
        assert forall|i: int, k: usize|
            0 <= i < st1.scopes.len() && #[trigger] st1.scopes[i].contains_key(k) implies st1.defs.contains_key(
            st1.scopes[i][k].0,
        ) by {
            assert(st.scopes[i] == st1.scopes[i]);
        }
        lemma_find_in_defined(st1, key);
    }
}


/// Every name met has an entry in the uses: it is resolved, to a definition
/// or to an error.
pub open spec fn names_resolved(st: ResV) -> bool {
    forall|i: int| 0 <= i < st.idents.len() ==> st.uses.contains_key(#[trigger] st.idents[i].id.0)
}

/// From `a` to `b` the uses only grow, the names met before stay, and every
/// name met since is resolved.
pub open spec fn resolves_forward(a: ResV, b: ResV) -> bool {
    &&& forall|k: u32| a.uses.contains_key(k) ==> #[trigger] b.uses.contains_key(k)
    &&& a.idents.len() <= b.idents.len()
    &&& forall|i: int| 0 <= i < a.idents.len() ==> #[trigger] b.idents[i] == a.idents[i]
    &&& forall|i: int|
        a.idents.len() <= i < b.idents.len() ==> b.uses.contains_key(#[trigger] b.idents[i].id.0)
}

proof fn lemma_forward_trans(a: ResV, b: ResV, c: ResV)
    requires
        resolves_forward(a, b),
        resolves_forward(b, c),
    ensures
        resolves_forward(a, c),
{
    assert forall|i: int| a.idents.len() <= i < c.idents.len() implies c.uses.contains_key(
        #[trigger] c.idents[i].id.0,
    ) by {
        if i < b.idents.len() {
            assert(c.idents[i] == b.idents[i]);
            assert(b.uses.contains_key(b.idents[i].id.0));
        }
    }
    assert forall|i: int| 0 <= i < a.idents.len() implies #[trigger] c.idents[i] == a.idents[i] by {
        assert(c.idents[i] == b.idents[i]);
    }
}

/// A name used and then resolved is resolved.
proof fn lemma_use_forward(st: ResV, st1: ResV, st2: ResV, name: Ident)
    requires
        resolves_forward(push_ident_s(st, name), st1),
        st2.idents == st1.idents,
        st2.uses.contains_key(name.id.0),
        forall|k: u32| st1.uses.contains_key(k) ==> #[trigger] st2.uses.contains_key(k),
    ensures
        resolves_forward(st, st2),
{
    let p = push_ident_s(st, name);
    assert(p.idents[st.idents.len() as int] == name);
    assert forall|i: int| st.idents.len() <= i < st2.idents.len() implies st2.uses.contains_key(
        #[trigger] st2.idents[i].id.0,
    ) by {
        if i == st.idents.len() {
            assert(st2.idents[i] == name);
        } else {
            assert(st1.uses.contains_key(st1.idents[i].id.0));
        }
    }
    assert forall|i: int| 0 <= i < st.idents.len() implies #[trigger] st2.idents[i] == st.idents[i] by {
        assert(p.idents[i] == st.idents[i]);
    }
}

proof fn lemma_res_expr_forward(st: ResV, e: Expr, names: Seq<Seq<char>>)
    ensures
        resolves_forward(st, res_expr_s(st, e, names)),
    decreases e, 0nat,
{
    match e.node {
        ExprKind::Lit(_) => {},
        ExprKind::Var(name) => {
            let p = push_ident_s(st, name);
            lemma_use_forward(st, p, resolve_name_s(p, name, names), name);
        },
        ExprKind::Unary(_, rhs, _) => lemma_res_expr_forward(st, *rhs, names),
        ExprKind::Binary(_, lhs, rhs, _) => {
            let st1 = res_expr_s(st, *lhs, names);
            lemma_res_expr_forward(st, *lhs, names);
            lemma_res_expr_forward(st1, *rhs, names);
            lemma_forward_trans(st, st1, res_expr_s(st1, *rhs, names));
        },
        ExprKind::Call(func, args, _) => {
            let st1 = res_expr_s(st, *func, names);
            lemma_res_expr_forward(st, *func, names);
            lemma_res_exprs_forward(st1, args, 0, names);
            lemma_forward_trans(st, st1, res_exprs_s(st1, args, 0, names));
        },
        ExprKind::Grouped(inner) => lemma_res_expr_forward(st, *inner, names),
        ExprKind::Array(elems) => lemma_res_exprs_forward(st, elems, 0, names),
        ExprKind::Index(a, i) => {
            let st1 = res_expr_s(st, *a, names);
            lemma_res_expr_forward(st, *a, names);
            lemma_res_expr_forward(st1, *i, names);
            lemma_forward_trans(st, st1, res_expr_s(st1, *i, names));
        },
        ExprKind::If { cond, then, els } => {
            let st1 = res_expr_s(st, *cond, names);
            let st2 = res_expr_s(st1, *then, names);
            lemma_res_expr_forward(st, *cond, names);
            lemma_res_expr_forward(st1, *then, names);
            lemma_forward_trans(st, st1, st2);
            if let Some(x) = els {
                lemma_res_expr_forward(st2, *x, names);
                lemma_forward_trans(st, st2, res_expr_s(st2, *x, names));
            }
        },
        ExprKind::Block(b) => lemma_res_block_forward(st, b, names),
    }
}

proof fn lemma_res_exprs_forward(st: ResV, es: Vec<Expr>, i: int, names: Seq<Seq<char>>)
    ensures
        resolves_forward(st, res_exprs_s(st, es, i, names)),
    decreases es, es@.len() - i,
{
    if 0 <= i < es@.len() {
        let st1 = res_expr_s(st, es@[i], names);
        lemma_res_expr_forward(st, es@[i], names);
        lemma_res_exprs_forward(st1, es, i + 1, names);
        lemma_forward_trans(st, st1, res_exprs_s(st1, es, i + 1, names));
    }
}

proof fn lemma_res_block_forward(st: ResV, b: Block, names: Seq<Seq<char>>)
    ensures
        resolves_forward(st, res_block_s(st, b, names)),
    decreases b, 0nat,
{
    let p = push_scope_s(st);
    let st1 = res_stmts_s(p, b.stmts, 0, names);
    lemma_res_stmts_forward(p, b.stmts, 0, names);
    let st2 = match b.tail {
        Some(t) => res_expr_s(st1, *t, names),
        None => st1,
    };
    if let Some(t) = b.tail {
        lemma_res_expr_forward(st1, *t, names);
    }
    lemma_forward_trans(p, st1, st2);
    assert(resolves_forward(st, p));
    lemma_forward_trans(st, p, st2);
    assert(resolves_forward(st2, pop_scope_s(st2)));
    lemma_forward_trans(st, st2, pop_scope_s(st2));
}

proof fn lemma_res_stmts_forward(st: ResV, ss: Vec<Stmt>, i: int, names: Seq<Seq<char>>)
    ensures
        resolves_forward(st, res_stmts_s(st, ss, i, names)),
    decreases ss, ss@.len() - i,
{
    if 0 <= i < ss@.len() {
        let st1 = res_stmt_s(st, ss@[i], names);
        lemma_res_stmt_forward(st, ss@[i], names);
        lemma_res_stmts_forward(st1, ss, i + 1, names);
        lemma_forward_trans(st, st1, res_stmts_s(st1, ss, i + 1, names));
    }
}

proof fn lemma_res_stmt_forward(st: ResV, s: Stmt, names: Seq<Seq<char>>)
    ensures
        resolves_forward(st, res_stmt_s(st, s, names)),
    decreases s, 0nat,
{
    match s.node {
        StmtKind::Expr(e) => lemma_res_expr_forward(st, *e, names),
        StmtKind::Let(name, _, value, m) => {
            let p = push_ident_s(st, name);
            let st1 = res_expr_s(p, *value, names);
            lemma_res_expr_forward(p, *value, names);
            lemma_use_forward(st, st1, define_s(st1, name, m), name);
        },
        StmtKind::Assign(name, rhs) => {
            let p = push_ident_s(st, name);
            let st1 = res_expr_s(p, *rhs, names);
            lemma_res_expr_forward(p, *rhs, names);
            let st2 = resolve_name_s(st1, name, names);
            lemma_use_forward(st, st1, st2, name);
            assert(resolves_forward(st, res_stmt_s(st, s, names)));
        },
    }
}

proof fn lemma_define_params_forward(st: ResV, ps: Seq<(Ident, crate::ast::Ty)>, i: int)
    ensures
        resolves_forward(st, define_params_s(st, ps, i)),
    decreases ps.len() - i,
{
    if 0 <= i < ps.len() {
        let st1 = define_s(st, ps[i].0, Mutability::Not);
        assert(resolves_forward(st, st1));
        lemma_define_params_forward(st1, ps, i + 1);
        lemma_forward_trans(st, st1, define_params_s(st1, ps, i + 1));
    }
}

proof fn lemma_define_funcs_forward(st: ResV, fs: Seq<Func>, i: int)
    ensures
        resolves_forward(st, define_funcs_s(st, fs, i)),
    decreases fs.len() - i,
{
    if 0 <= i < fs.len() {
        let st1 = ResV { next: bump(st.next), ..st };
        let st2 = define_s(st1, fs[i].name, Mutability::Not);
        assert(resolves_forward(st, st2));
        lemma_define_funcs_forward(st2, fs, i + 1);
        lemma_forward_trans(st, st2, define_funcs_s(st2, fs, i + 1));
    }
}

proof fn lemma_res_funcs_forward(st: ResV, fs: Seq<Func>, i: int, names: Seq<Seq<char>>)
    ensures
        resolves_forward(st, res_funcs_s(st, fs, i, names)),
    decreases fs.len() - i,
{
    if 0 <= i < fs.len() {
        let f = fs[i];
        let p = push_scope_s(st);
        let st1 = define_params_s(p, f.params@, 0);
        lemma_define_params_forward(p, f.params@, 0);
        let st2 = res_block_s(st1, f.body, names);
        lemma_res_block_forward(st1, f.body, names);
        lemma_forward_trans(p, st1, st2);
        lemma_forward_trans(st, p, st2);
        let st3 = res_func_s(st, f, names);
        lemma_forward_trans(st, st2, st3);
        lemma_res_funcs_forward(st3, fs, i + 1, names);
        lemma_forward_trans(st, st3, res_funcs_s(st3, fs, i + 1, names));
    }
}

/// Resolving a program resolves every name it meets: each gets an entry in
/// the uses, to a definition or to an error.
pub proof fn lemma_every_name_resolved(st: ResV, p: Program, names: Seq<Seq<char>>)
    requires
        names_resolved(st),
    ensures
        names_resolved(res_program_s(st, p, names)),
{
    reveal(res_program_s);
    let s0 = push_scope_s(st);
    let s1 = define_print_s(s0, names);
    let s2 = define_funcs_s(s1, p.funcs@, 0);
    lemma_define_funcs_forward(s1, p.funcs@, 0);
    let s3 = res_funcs_s(s2, p.funcs@, 0, names);
    lemma_res_funcs_forward(s2, p.funcs@, 0, names);
    lemma_forward_trans(s1, s2, s3);
    assert(resolves_forward(st, s1));
    lemma_forward_trans(st, s1, s3);
    let r = pop_scope_s(s3);
    assert forall|i: int| 0 <= i < r.idents.len() implies r.uses.contains_key(#[trigger] r.idents[i].id.0) by {
        if i < st.idents.len() {
            assert(r.idents[i] == st.idents[i]);
            assert(st.uses.contains_key(st.idents[i].id.0));
        }
    }
}

pub struct NameResolution<'a, R: DiagnosticReporter> {
    sym_table: &'a SymTable,
    defs: HashMap<u32, BindingInfo>,
    uses: HashMap<u32, Result<DefId, ErrGuaranteed>>,
    scopes: Vec<HashMap<usize, DefId>>,
    idents: Vec<Ident>,
    def_ids: u32,
    errors: R,
    print_def_id: Option<DefId>,
    reported: Ghost<Seq<DiagView>>,
    prior: Ghost<Seq<DiagView>>,
}

impl<'a, R: DiagnosticReporter> NameResolution<'a, R> {
    /// The state of the resolution.
    pub closed spec fn state(&self) -> ResV {
        ResV {
            defs: self.defs@,
            uses: self.uses@,
            scopes: self.scopes@.map_values(|m: HashMap<usize, DefId>| m@),
            idents: self.idents@,
            next: self.def_ids,
            print: self.print_def_id,
            reports: self.reported@,
            sink_agrees: self.errors.given() == self.prior@ + self.reported@,
        }
    }

    /// What the sink held when resolution started.
    pub closed spec fn prior(&self) -> Seq<DiagView> {
        self.prior@
    }

    /// The names of the symbol table.
    pub closed spec fn names(&self) -> Seq<Seq<char>> {
        self.sym_table@
    }

    /// The definitions of the scopes are recorded, and symbols fit in keys.
    pub open spec fn wf(&self) -> bool {
        &&& scopes_defined(self.state())
        &&& self.state().sink_agrees
        &&& self.names().len() <= u32::MAX + 1
        &&& forall|i: int, j: int|
            0 <= i < j < self.names().len() ==> self.names()[i] != self.names()[j]
    }

    pub fn new(sym_table: &'a SymTable, errors: R) -> (r: Self)
        requires
            sym_table.wf(),
            sym_table@.len() <= u32::MAX + 1,
        ensures
            r.wf(),
            r.names() == sym_table@,
            r.state() == (ResV {
                defs: Map::empty(),
                uses: Map::empty(),
                scopes: Seq::empty(),
                idents: Seq::empty(),
                next: 0,
                print: None,
                reports: Seq::empty(),
                sink_agrees: true,
            }),
            r.prior() == errors.given(),
    {
        let r = Self {
            sym_table,
            defs: HashMap::new(),
            uses: HashMap::new(),
            scopes: Vec::new(),
            idents: Vec::new(),
            def_ids: 0,
            errors,
            print_def_id: None,
            reported: Ghost(Seq::empty()),
            prior: Ghost(errors.given()),
        };
        proof {
            assert(r.state().scopes =~= Seq::<Map<usize, DefId>>::empty());
        }
        r
    }

    /// The tables, and the sink with the diagnostics reported.
    pub fn finish(self) -> (r: (NameTables, R))
        ensures
            r.0.defs@ == self.state().defs,
            r.0.uses@ == self.state().uses,
            r.0.idents@ == self.state().idents,
            r.0.print_def_id == self.state().print,
            self.state().sink_agrees ==> r.1.given() == self.prior() + self.state().reports,
    {
        (
            NameTables {
                defs: self.defs,
                uses: self.uses,
                idents: self.idents,
                print_def_id: self.print_def_id,
            },
            self.errors,
        )
    }

    fn report(&mut self, diagnostic: Diagnostic)
        ensures
            final(self).state() == (ResV {
                reports: old(self).state().reports.push(diag_view(diagnostic)),
                ..old(self).state()
            }),
            final(self).names() == old(self).names(),
            final(self).prior() == old(self).prior(),
    {
        let ghost given = self.errors.given();
        self.reported = Ghost(self.reported@.push(diag_view(diagnostic)));
        self.errors.report(diagnostic);
        proof {
            crate::diagnostics::lemma_push_agrees(given, self.prior@, old(self).reported@, diag_view(diagnostic));
        }
    }

    fn next_def_id(&mut self) -> (r: DefId)
        ensures
            r == DefId(old(self).state().next),
            final(self).state() == (ResV { next: bump(old(self).state().next), ..old(self).state() }),
            final(self).names() == old(self).names(),
            final(self).prior() == old(self).prior(),
    {
        let d = DefId(self.def_ids);
        self.def_ids = self.def_ids.wrapping_add(1);
        d
    }

    fn push_scope(&mut self)
        requires
            old(self).wf(),
        ensures
            final(self).wf(),
            final(self).state() == push_scope_s(old(self).state()),
            final(self).names() == old(self).names(),
            final(self).prior() == old(self).prior(),
    {
        self.scopes.push(HashMap::new());
        proof {
            assert(self.state().scopes =~= old(self).state().scopes.push(Map::empty()));
        }
    }

    fn pop_scope(&mut self)
        requires
            old(self).wf(),
        ensures
            final(self).wf(),
            final(self).state() == pop_scope_s(old(self).state()),
            final(self).names() == old(self).names(),
            final(self).prior() == old(self).prior(),
    {
        self.scopes.pop();
        proof {
            if old(self).scopes@.len() > 0 {
                assert(self.state().scopes =~= old(self).state().scopes.drop_last());
            } else {
                assert(self.state().scopes =~= old(self).state().scopes);
            }
        }
    }

    /// Puts `key` for `d` into the innermost scope.
    fn bind_in_scope(&mut self, key: usize, d: DefId)
        requires
            old(self).state().scopes.len() > 0,
        ensures
            final(self).state() == (ResV {
                scopes: old(self).state().scopes.update(
                    old(self).state().scopes.len() - 1,
                    old(self).state().scopes.last().insert(key, d),
                ),
                ..old(self).state()
            }),
            final(self).names() == old(self).names(),
            final(self).prior() == old(self).prior(),
    {
        let mut top = self.scopes.pop().unwrap();
        top.insert(key, d);
        self.scopes.push(top);
        proof {
            assert(self.state().scopes =~= old(self).state().scopes.update(
                old(self).state().scopes.len() - 1,
                old(self).state().scopes.last().insert(key, d),
            ));
        }
    }

    fn define_name(&mut self, ident: Ident, mutability: Mutability) -> (r: DefId)
        requires
            old(self).wf(),
            old(self).state().scopes.len() > 0,
            ident.sym.index_of() < old(self).names().len(),
        ensures
            final(self).wf(),
            final(self).state() == define_s(old(self).state(), ident, mutability),
            final(self).names() == old(self).names(),
            final(self).prior() == old(self).prior(),
    {
        let def_id = self.next_def_id();
        let binding_info = BindingInfo { mutability, span: ident.span };
        self.defs.insert(def_id.0, binding_info);
        self.uses.insert(ident.id.0, Ok(def_id));
        self.bind_in_scope(ident.sym.into_usize(), def_id);
        proof {
            assert(self.state().defs == old(self).state().defs.insert(
                old(self).state().next,
                BindingInfo { mutability, span: ident.span },
            ));
            assert(scopes_defined(self.state()));
        }
        def_id
    }

    /// The definition of `key` in the innermost scope that defines it.
    fn find_name(&self, key: usize) -> (r: Option<DefId>)
        ensures
            r == find_in(self.state().scopes, key),
    {
        let mut i = self.scopes.len();
        proof {
            assert(self.state().scopes.take(i as int) =~= self.state().scopes);
        }
        while i > 0
            invariant
                i <= self.scopes.len(),
                find_in(self.state().scopes, key) == find_in(self.state().scopes.take(i as int), key),
            decreases i,
        {
            let ghost pre = self.state().scopes.take(i as int);
            proof {
                assert(pre.drop_last() =~= self.state().scopes.take(i - 1));
                assert(pre.last() == self.scopes@[i - 1]@);
            }
            if let Some(d) = self.scopes[i - 1].get(&key) {
                return Some(*d);
            }
            i = i - 1;
        }
        None
    }

    /// Records what a use of `ident` refers to, reporting it if nothing does;
    /// the binding it refers to.
    fn resolve_name(&mut self, ident: Ident) -> (r: Option<BindingInfo>)
        requires
            old(self).wf(),
            ident.sym.index_of() < old(self).names().len(),
        ensures
            final(self).wf(),
            final(self).state() == resolve_name_s(old(self).state(), ident, old(self).names()),
            final(self).names() == old(self).names(),
            final(self).prior() == old(self).prior(),
            match find_in(old(self).state().scopes, sym_key(ident.sym)) {
                Some(d) => r == Some(old(self).state().defs[d.0]),
                None => r is None,
            },
    {
        proof {
            assert(self.state().scopes =~= self.scopes@.map_values(|m: HashMap<usize, DefId>| m@));
        }
        let found = self.find_name(ident.sym.into_usize());
        match found {
            Some(def_id) => {
                proof {
                    lemma_find_in_defined(self.state(), sym_key(ident.sym));
                }
                let info = match self.defs.get(&def_id.0) {
                    Some(b) => BindingInfo { mutability: b.mutability, span: b.span },
                    None => BindingInfo { mutability: Mutability::Not, span: ident.span },
                };
                self.uses.insert(ident.id.0, Ok(def_id));
                Some(info)
            },
            None => {
                let mut msg = String::new();
                push_str(&mut msg, "cannot find `");
                push_str(&mut msg, self.sym_table.get_str(ident.sym));
                push_str(&mut msg, "` in this scope");
                let diagnostic = Diagnostic::error(msg.as_str(), ident.span);
                proof {
                    assert(msg@ =~= not_found_text(self.names()[ident.sym.index_of() as int]));
                    assert(crate::diagnostics::label_messages(diagnostic.secondary@) =~= Seq::<Seq<char>>::empty());
                    assert(crate::diagnostics::label_spans(diagnostic.secondary@) =~= Seq::<Span>::empty());
                }
                self.reported = Ghost(self.reported@.push(diag_view(diagnostic)));
                let err = self.errors.report_err(diagnostic);
                self.uses.insert(ident.id.0, Err(err));
                proof {
                    lemma_err_unique(err, some_err());
                }
                None
            },
        }
    }

    fn push_ident(&mut self, ident: Ident)
        requires
            old(self).wf(),
        ensures
            final(self).wf(),
            final(self).state() == push_ident_s(old(self).state(), ident),
            final(self).names() == old(self).names(),
            final(self).prior() == old(self).prior(),
    {
        self.idents.push(ident);
    }

    pub fn resolve_program(&mut self, program: &Program)
        requires
            old(self).wf(),
            program_syms(*program, old(self).names().len()),
        ensures
            final(self).wf(),
            final(self).state() == res_program_s(old(self).state(), *program, old(self).names()),
            final(self).names() == old(self).names(),
            final(self).prior() == old(self).prior(),
    {
        proof {
            reveal(res_program_s);
        }
        let ghost names = self.names();
        self.push_scope();
        let ghost st0 = self.state();
        if let Some(sym) = self.sym_table.find_str::<crate::ast::Symbol>("print") {
            let def_id = self.next_def_id();
            let binding_info = BindingInfo { mutability: Mutability::Not, span: Span::dummy() };
            self.defs.insert(def_id.0, binding_info);
            proof {
                let k = names.index_of("print"@);
                assert(names.contains("print"@));
                assert(0 <= k < names.len() && names[k] == "print"@);
                assert(k == sym.index_of());
            }
            self.bind_in_scope(sym.into_usize(), def_id);
            self.print_def_id = Some(def_id);
            proof {
                assert(scopes_defined(self.state()));
            }
        }
        let ghost st1 = self.state();
        assert(st1 == define_print_s(st0, names));
        let mut i: usize = 0;
        while i < program.funcs.len()
            invariant
                self.wf(),
                names == self.names(),
                self.prior() == old(self).prior(),
                program_syms(*program, names.len()),
                i <= program.funcs.len(),
                self.state().scopes.len() == st1.scopes.len(),
                st1.scopes.len() > 0,
                define_funcs_s(st1, program.funcs@, 0) == define_funcs_s(
                    self.state(),
                    program.funcs@,
                    i as int,
                ),
            decreases program.funcs.len() - i,
        {
            let _ = self.next_def_id();
            assert(func_syms(program.funcs@[i as int], names.len()));
            self.define_name(program.funcs[i].name, Mutability::Not);
            i = i + 1;
        }
        let ghost st2 = self.state();
        let mut j: usize = 0;
        while j < program.funcs.len()
            invariant
                self.wf(),
                names == self.names(),
                self.prior() == old(self).prior(),
                program_syms(*program, names.len()),
                j <= program.funcs.len(),
                res_funcs_s(st2, program.funcs@, 0, names) == res_funcs_s(
                    self.state(),
                    program.funcs@,
                    j as int,
                    names,
                ),
            decreases program.funcs.len() - j,
        {
            assert(func_syms(program.funcs@[j as int], names.len()));
            self.resolve_func(&program.funcs[j]);
            j = j + 1;
        }
        self.pop_scope();
    }

    pub fn resolve_func(&mut self, func: &Func)
        requires
            old(self).wf(),
            func_syms(*func, old(self).names().len()),
        ensures
            final(self).wf(),
            final(self).state() == res_func_s(old(self).state(), *func, old(self).names()),
            final(self).names() == old(self).names(),
            final(self).prior() == old(self).prior(),
    {
        let ghost names = self.names();
        self.push_scope();
        let ghost st0 = self.state();
        let mut i: usize = 0;
        while i < func.params.len()
            invariant
                self.wf(),
                names == self.names(),
                self.prior() == old(self).prior(),
                func_syms(*func, names.len()),
                i <= func.params.len(),
                self.state().scopes.len() == st0.scopes.len(),
                st0.scopes.len() > 0,
                define_params_s(st0, func.params@, 0) == define_params_s(
                    self.state(),
                    func.params@,
                    i as int,
                ),
            decreases func.params.len() - i,
        {
            let ghost p = func.params@[i as int];
            assert(p.0.sym.index_of() < names.len());
            let name = func.params[i].0;
            self.define_name(name, Mutability::Not);
            i = i + 1;
        }
        self.resolve_block(&func.body);
        self.pop_scope();
    }

    pub fn resolve_block(&mut self, block: &Block)
        requires
            old(self).wf(),
            block_syms(*block, old(self).names().len()),
        ensures
            final(self).wf(),
            final(self).state() == res_block_s(old(self).state(), *block, old(self).names()),
            final(self).state().scopes.len() == old(self).state().scopes.len(),
            final(self).names() == old(self).names(),
            final(self).prior() == old(self).prior(),
        decreases block, 0nat,
    {
        self.push_scope();
        self.resolve_stmts(&block.stmts);
        if let Some(expr) = &block.tail {
            self.resolve_expr(expr);
        }
        self.pop_scope();
    }

    fn resolve_stmts(&mut self, stmts: &Vec<Stmt>)
        requires
            old(self).wf(),
            old(self).state().scopes.len() > 0,
            forall|i: int|
                0 <= i < stmts@.len() ==> stmt_syms(#[trigger] stmts@[i], old(self).names().len()),
        ensures
            final(self).wf(),
            final(self).state() == res_stmts_s(old(self).state(), *stmts, 0, old(self).names()),
            final(self).state().scopes.len() == old(self).state().scopes.len(),
            final(self).names() == old(self).names(),
            final(self).prior() == old(self).prior(),
        decreases stmts, stmts@.len(),
    {
        let ghost names = self.names();
        let mut i: usize = 0;
        while i < stmts.len()
            invariant
                self.wf(),
                names == self.names(),
                self.prior() == old(self).prior(),
                forall|i: int| 0 <= i < stmts@.len() ==> stmt_syms(#[trigger] stmts@[i], names.len()),
                i <= stmts.len(),
                self.state().scopes.len() == old(self).state().scopes.len(),
                old(self).state().scopes.len() > 0,
                res_stmts_s(old(self).state(), *stmts, 0, names) == res_stmts_s(
                    self.state(),
                    *stmts,
                    i as int,
                    names,
                ),
            decreases stmts.len() - i,
        {
            self.resolve_stmt(&stmts[i]);
            i = i + 1;
        }
    }

    fn resolve_stmt(&mut self, stmt: &Stmt)
        requires
            old(self).wf(),
            old(self).state().scopes.len() > 0,
            stmt_syms(*stmt, old(self).names().len()),
        ensures
            final(self).wf(),
            final(self).state() == res_stmt_s(old(self).state(), *stmt, old(self).names()),
            final(self).state().scopes.len() == old(self).state().scopes.len(),
            final(self).names() == old(self).names(),
            final(self).prior() == old(self).prior(),
        decreases stmt, 0nat,
    {
        match &stmt.node {
            StmtKind::Expr(expr) => self.resolve_expr(expr),
            StmtKind::Let(name, _, expr, mutability) => {
                self.push_ident(*name);
                self.resolve_expr(expr);
                self.define_name(*name, *mutability);
            },
            StmtKind::Assign(name, rhs) => {
                self.push_ident(*name);
                self.resolve_expr(rhs);
                if let Some(binding_info) = self.resolve_name(*name) {
                    if binding_info.mutability == Mutability::Not {
                        let diag = Diagnostic::error("cannot assign to immutable binding", name.span)
                            .with_label("variable was declared here", binding_info.span);
                        proof {
                            assert(crate::diagnostics::label_messages(diag.secondary@) =~= seq!["variable was declared here"@]);
                            assert(crate::diagnostics::label_spans(diag.secondary@) =~= seq![binding_info.span]);
                        }
                        self.report(diag);
                    }
                }
            },
        }
    }

    pub fn resolve_expr(&mut self, expr: &Expr)
        requires
            old(self).wf(),
            expr_syms(*expr, old(self).names().len()),
        ensures
            final(self).wf(),
            final(self).state() == res_expr_s(old(self).state(), *expr, old(self).names()),
            final(self).state().scopes.len() == old(self).state().scopes.len(),
            final(self).names() == old(self).names(),
            final(self).prior() == old(self).prior(),
        decreases expr, 0nat,
    {
        match &expr.node {
            ExprKind::Lit(_) => {},
            ExprKind::Var(name) => {
                self.push_ident(*name);
                self.resolve_name(*name);
            },
            ExprKind::Unary(_, rhs, _) => {
                self.resolve_expr(rhs);
            },
            ExprKind::Binary(_, lhs, rhs, _) => {
                self.resolve_expr(lhs);
                self.resolve_expr(rhs);
            },
            ExprKind::Call(func, args, _) => {
                self.resolve_expr(func);
                self.resolve_exprs(args);
            },
            ExprKind::Grouped(inner) => {
                self.resolve_expr(inner);
            },
            ExprKind::Array(exprs) => {
                self.resolve_exprs(exprs);
            },
            ExprKind::Index(e, index) => {
                self.resolve_expr(e);
                self.resolve_expr(index);
            },
            ExprKind::If { cond, then, els } => {
                self.resolve_expr(cond);
                self.resolve_expr(then);
                if let Some(x) = els {
                    self.resolve_expr(x);
                }
            },
            ExprKind::Block(block) => {
                self.resolve_block(block);
            },
        }
    }

    fn resolve_exprs(&mut self, exprs: &Vec<Expr>)
        requires
            old(self).wf(),
            forall|i: int|
                0 <= i < exprs@.len() ==> expr_syms(#[trigger] exprs@[i], old(self).names().len()),
        ensures
            final(self).wf(),
            final(self).state() == res_exprs_s(old(self).state(), *exprs, 0, old(self).names()),
            final(self).state().scopes.len() == old(self).state().scopes.len(),
            final(self).names() == old(self).names(),
            final(self).prior() == old(self).prior(),
        decreases exprs, exprs@.len(),
    {
        let ghost names = self.names();
        let mut i: usize = 0;
        while i < exprs.len()
            invariant
                self.wf(),
                names == self.names(),
                self.prior() == old(self).prior(),
                forall|i: int| 0 <= i < exprs@.len() ==> expr_syms(#[trigger] exprs@[i], names.len()),
                i <= exprs.len(),
                self.state().scopes.len() == old(self).state().scopes.len(),
                res_exprs_s(old(self).state(), *exprs, 0, names) == res_exprs_s(
                    self.state(),
                    *exprs,
                    i as int,
                    names,
                ),
            decreases exprs.len() - i,
        {
            self.resolve_expr(&exprs[i]);
            i = i + 1;
        }
    }
}

} // verus!
