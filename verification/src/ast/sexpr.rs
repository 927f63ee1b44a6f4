//! Writing the syntax tree as an S-expression.
use vstd::prelude::*;

use crate::ast::{
    binop_text, unaryop_text, Block, Expr, ExprKind, Func, Ident, Lit, Mutability, Program, Stmt,
    StmtKind, Symbol, Ty, TyKind,
};
use crate::escape::{escape, escape_all};
use crate::interner::{Index, SymTable};
use crate::text::push_str;

verus! {

/// The texts one after the other.
pub open spec fn flat(parts: Seq<Seq<char>>) -> Seq<char>
    decreases parts.len(),
{
    if parts.len() == 0 {
        Seq::empty()
    } else {
        flat(parts.drop_last()) + parts.last()
    }
}

proof fn lemma_flat_step(parts: Seq<Seq<char>>, i: int)
    requires
        0 <= i < parts.len(),
    ensures
        flat(parts.take(i + 1)) == flat(parts.take(i)) + parts[i],
{
    assert(parts.take(i + 1).drop_last() =~= parts.take(i));
}

proof fn lemma_flat_all(parts: Seq<Seq<char>>)
    ensures
        flat(parts.take(parts.len() as int)) == flat(parts),
{
    assert(parts.take(parts.len() as int) =~= parts);
}

/// The name a symbol stands for.
pub open spec fn sym_text(names: Seq<Seq<char>>, sym: Symbol) -> Seq<char> {
    names[sym.index_of() as int]
}

/// A written type.
pub open spec fn ty_sexpr(t: Ty, names: Seq<Seq<char>>) -> Seq<char>
    decreases t,
{
    match t.node {
        TyKind::Infer => "_"@,
        TyKind::Var(v) => sym_text(names, v.sym),
        TyKind::Nullable(inner) => "(? "@ + ty_sexpr(*inner, names) + ")"@,
        TyKind::Array(inner) => "(array "@ + ty_sexpr(*inner, names) + ")"@,
        TyKind::Tuple(tys) => "(tuple"@ + flat(ty_parts(tys, names)) + ")"@,
    }
}

/// Each type of a list, after a space.
pub open spec fn ty_parts(tys: Vec<Ty>, names: Seq<Seq<char>>) -> Seq<Seq<char>>
    decreases tys,
{
    Seq::new(
        tys@.len(),
        |i: int|
            if 0 <= i < tys@.len() {
                " "@ + ty_sexpr(tys@[i], names)
            } else {
                Seq::empty()
            },
    )
}

/// A literal.
pub open spec fn lit_sexpr(lit: Lit, names: Seq<Seq<char>>) -> Seq<char> {
    match lit {
        Lit::Null => "null"@,
        Lit::Bool(false) => "false"@,
        Lit::Bool(true) => "true"@,
        Lit::Int(sym) => "(int "@ + sym_text(names, sym) + ")"@,
        Lit::Float(sym) => "(float "@ + sym_text(names, sym) + ")"@,
        Lit::Str(sym) => "(str \""@ + escape_all(sym_text(names, sym)) + "\")"@,
        Lit::Error(_) => "err"@,
    }
}

/// An expression.
pub open spec fn expr_sexpr(e: Expr, names: Seq<Seq<char>>) -> Seq<char>
    decreases e,
{
    match e.node {
        ExprKind::Lit(lit) => lit_sexpr(lit, names),
        ExprKind::Var(v) => "(var "@ + sym_text(names, v.sym) + ")"@,
        ExprKind::Unary(op, rhs, _) => "("@ + unaryop_text(op) + " "@ + expr_sexpr(*rhs, names)
            + ")"@,
        ExprKind::Binary(op, lhs, rhs, _) => "("@ + binop_text(op) + " "@ + expr_sexpr(*lhs, names)
            + " "@ + expr_sexpr(*rhs, names) + ")"@,
        ExprKind::Call(func, args, _) => "(call "@ + expr_sexpr(*func, names) + flat(
            expr_parts(args, names),
        ) + ")"@,
        ExprKind::Grouped(inner) => expr_sexpr(*inner, names),
        ExprKind::Array(elems) => "(array"@ + flat(expr_parts(elems, names)) + ")"@,
        ExprKind::Index(a, i) => "(index "@ + expr_sexpr(*a, names) + " "@ + expr_sexpr(*i, names)
            + ")"@,
        ExprKind::If { cond, then, els } => "(if "@ + expr_sexpr(*cond, names) + " "@ + expr_sexpr(
            *then,
            names,
        ) + " "@ + (match els {
            Some(x) => expr_sexpr(*x, names),
            None => "none"@,
        }) + ")"@,
        ExprKind::Block(b) => block_sexpr(b, names),
    }
}

/// Each expression of a list, after a space.
pub open spec fn expr_parts(es: Vec<Expr>, names: Seq<Seq<char>>) -> Seq<Seq<char>>
    decreases es,
{
    Seq::new(
        es@.len(),
        |i: int|
            if 0 <= i < es@.len() {
                " "@ + expr_sexpr(es@[i], names)
            } else {
                Seq::empty()
            },
    )
}

/// Each statement of a list, after a space.
pub open spec fn stmt_parts(ss: Vec<Stmt>, names: Seq<Seq<char>>) -> Seq<Seq<char>>
    decreases ss,
{
    Seq::new(
        ss@.len(),
        |i: int|
            if 0 <= i < ss@.len() {
                " "@ + stmt_sexpr(ss@[i], names)
            } else {
                Seq::empty()
            },
    )
}

/// A block: its statements, then its tail or `none)`.
pub open spec fn block_sexpr(b: Block, names: Seq<Seq<char>>) -> Seq<char>
    decreases b,
{
    "(block"@ + flat(stmt_parts(b.stmts, names)) + (match b.tail {
        Some(t) => " "@ + expr_sexpr(*t, names),
        None => " none)"@,
    })
}

/// A statement.
pub open spec fn stmt_sexpr(s: Stmt, names: Seq<Seq<char>>) -> Seq<char>
    decreases s,
{
    match s.node {
        StmtKind::Expr(e) => expr_sexpr(*e, names),
        StmtKind::Let(name, ty, value, m) => (match m {
            Mutability::Not => "(let "@,
            Mutability::Mut => "(var "@,
        }) + (match ty {
            Some(t) => ty_sexpr(*t, names),
            None => "_"@,
        }) + " "@ + sym_text(names, name.sym) + " "@ + expr_sexpr(*value, names) + ")"@,
        StmtKind::Assign(lhs, rhs) => "(= "@ + sym_text(names, lhs.sym) + " "@ + expr_sexpr(
            *rhs,
            names,
        ) + ")"@,
    }
}

/// One parameter of a function: ` (name type)`.
pub open spec fn param_sexpr(p: (Ident, Ty), names: Seq<Seq<char>>) -> Seq<char> {
    " ("@ + sym_text(names, p.0.sym) + " "@ + ty_sexpr(p.1, names) + ")"@
}

/// A function: its name, parameters and body.
pub open spec fn func_sexpr(f: Func, names: Seq<Seq<char>>) -> Seq<char> {
    "(func "@ + sym_text(names, f.name.sym) + " (params"@ + flat(
        f.params@.map_values(|p: (Ident, Ty)| param_sexpr(p, names)),
    ) + ") "@ + block_sexpr(f.body, names) + ")"@
}

/// A program: each function on a line of its own.
pub open spec fn program_sexpr(p: Program, names: Seq<Seq<char>>) -> Seq<char> {
    flat(p.funcs@.map_values(|f: Func| func_sexpr(f, names) + "\n"@))
}

/// Every symbol of a written type is below `n`.
pub open spec fn ty_syms(t: Ty, n: nat) -> bool
    decreases t,
{
    match t.node {
        TyKind::Infer => true,
        TyKind::Var(v) => v.sym.index_of() < n,
        TyKind::Nullable(inner) => ty_syms(*inner, n),
        TyKind::Array(inner) => ty_syms(*inner, n),
        TyKind::Tuple(tys) => forall|i: int| 0 <= i < tys@.len() ==> ty_syms(tys@[i], n),
    }
}

pub open spec fn lit_syms(lit: Lit, n: nat) -> bool {
    match lit {
        Lit::Int(sym) => sym.index_of() < n,
        Lit::Float(sym) => sym.index_of() < n,
        Lit::Str(sym) => sym.index_of() < n,
        _ => true,
    }
}

/// Every symbol of an expression is below `n`.
pub open spec fn expr_syms(e: Expr, n: nat) -> bool
    decreases e,
{
    match e.node {
        ExprKind::Lit(lit) => lit_syms(lit, n),
        ExprKind::Var(v) => v.sym.index_of() < n,
        ExprKind::Unary(_, rhs, _) => expr_syms(*rhs, n),
        ExprKind::Binary(_, lhs, rhs, _) => expr_syms(*lhs, n) && expr_syms(*rhs, n),
        ExprKind::Call(func, args, _) => expr_syms(*func, n) && forall|i: int|
            0 <= i < args@.len() ==> expr_syms(args@[i], n),
        ExprKind::Grouped(inner) => expr_syms(*inner, n),
        ExprKind::Array(elems) => forall|i: int| 0 <= i < elems@.len() ==> expr_syms(elems@[i], n),
        ExprKind::Index(a, i) => expr_syms(*a, n) && expr_syms(*i, n),
        ExprKind::If { cond, then, els } => expr_syms(*cond, n) && expr_syms(*then, n) && (match els {
            Some(x) => expr_syms(*x, n),
            None => true,
        }),
        ExprKind::Block(b) => block_syms(b, n),
    }
}

pub open spec fn block_syms(b: Block, n: nat) -> bool
    decreases b,
{
    (forall|i: int| 0 <= i < b.stmts@.len() ==> stmt_syms(b.stmts@[i], n)) && (match b.tail {
        Some(t) => expr_syms(*t, n),
        None => true,
    })
}

pub open spec fn stmt_syms(s: Stmt, n: nat) -> bool
    decreases s,
{
    match s.node {
        StmtKind::Expr(e) => expr_syms(*e, n),
        StmtKind::Let(name, ty, value, _) => name.sym.index_of() < n && (match ty {
            Some(t) => ty_syms(*t, n),
            None => true,
        }) && expr_syms(*value, n),
        StmtKind::Assign(lhs, rhs) => lhs.sym.index_of() < n && expr_syms(*rhs, n),
    }
}

/// A bound on the symbols of a written type holds of any larger bound.
pub proof fn lemma_ty_syms_mono(t: Ty, n: nat, m: nat)
    requires
        ty_syms(t, n),
        n <= m,
    ensures
        ty_syms(t, m),
    decreases t,
{
    match t.node {
        TyKind::Nullable(inner) => lemma_ty_syms_mono(*inner, n, m),
        TyKind::Array(inner) => lemma_ty_syms_mono(*inner, n, m),
        TyKind::Tuple(tys) => {
            assert forall|i: int| 0 <= i < tys@.len() implies ty_syms(tys@[i], m) by {
                lemma_ty_syms_mono(tys@[i], n, m);
            }
        },
        _ => {},
    }
}

/// A bound on the symbols of an expression holds of any larger bound.
pub proof fn lemma_expr_syms_mono(e: Expr, n: nat, m: nat)
    requires
        expr_syms(e, n),
        n <= m,
    ensures
        expr_syms(e, m),
    decreases e,
{
    match e.node {
        ExprKind::Unary(_, rhs, _) => lemma_expr_syms_mono(*rhs, n, m),
        ExprKind::Binary(_, lhs, rhs, _) => {
            lemma_expr_syms_mono(*lhs, n, m);
            lemma_expr_syms_mono(*rhs, n, m);
        },
        ExprKind::Call(func, args, _) => {
            lemma_expr_syms_mono(*func, n, m);
            assert forall|i: int| 0 <= i < args@.len() implies expr_syms(args@[i], m) by {
                lemma_expr_syms_mono(args@[i], n, m);
            }
        },
        ExprKind::Grouped(inner) => lemma_expr_syms_mono(*inner, n, m),
        ExprKind::Array(elems) => {
            assert forall|i: int| 0 <= i < elems@.len() implies expr_syms(elems@[i], m) by {
                lemma_expr_syms_mono(elems@[i], n, m);
            }
        },
        ExprKind::Index(a, i) => {
            lemma_expr_syms_mono(*a, n, m);
            lemma_expr_syms_mono(*i, n, m);
        },
        ExprKind::If { cond, then, els } => {
            lemma_expr_syms_mono(*cond, n, m);
            lemma_expr_syms_mono(*then, n, m);
            if let Some(x) = els {
                lemma_expr_syms_mono(*x, n, m);
            }
        },
        ExprKind::Block(b) => lemma_block_syms_mono(b, n, m),
        _ => {},
    }
}

/// A bound on the symbols of a block holds of any larger bound.
pub proof fn lemma_block_syms_mono(b: Block, n: nat, m: nat)
    requires
        block_syms(b, n),
        n <= m,
    ensures
        block_syms(b, m),
    decreases b,
{
    assert forall|i: int| 0 <= i < b.stmts@.len() implies stmt_syms(b.stmts@[i], m) by {
        lemma_stmt_syms_mono(b.stmts@[i], n, m);
    }
    if let Some(t) = b.tail {
        lemma_expr_syms_mono(*t, n, m);
    }
}

/// A bound on the symbols of a statement holds of any larger bound.
pub proof fn lemma_stmt_syms_mono(s: Stmt, n: nat, m: nat)
    requires
        stmt_syms(s, n),
        n <= m,
    ensures
        stmt_syms(s, m),
    decreases s,
{
    match s.node {
        StmtKind::Expr(e) => lemma_expr_syms_mono(*e, n, m),
        StmtKind::Let(_, ty, value, _) => {
            if let Some(t) = ty {
                lemma_ty_syms_mono(*t, n, m);
            }
            lemma_expr_syms_mono(*value, n, m);
        },
        StmtKind::Assign(_, rhs) => lemma_expr_syms_mono(*rhs, n, m),
    }
}

pub open spec fn func_syms(f: Func, n: nat) -> bool {
    &&& f.name.sym.index_of() < n
    &&& forall|i: int|
        0 <= i < f.params@.len() ==> (#[trigger] f.params@[i]).0.sym.index_of() < n && ty_syms(
            f.params@[i].1,
            n,
        )
    &&& match f.ret {
        Some(t) => ty_syms(t, n),
        None => true,
    }
    &&& block_syms(f.body, n)
}

/// A bound on the symbols of a function holds of any larger bound.
pub proof fn lemma_func_syms_mono(f: Func, n: nat, m: nat)
    requires
        func_syms(f, n),
        n <= m,
    ensures
        func_syms(f, m),
{
    assert forall|i: int| 0 <= i < f.params@.len() implies (#[trigger] f.params@[i]).0.sym.index_of()
        < m && ty_syms(f.params@[i].1, m) by {
        lemma_ty_syms_mono(f.params@[i].1, n, m);
    }
    if let Some(t) = f.ret {
        lemma_ty_syms_mono(t, n, m);
    }
    lemma_block_syms_mono(f.body, n, m);
}

pub open spec fn program_syms(p: Program, n: nat) -> bool {
    forall|i: int| 0 <= i < p.funcs@.len() ==> func_syms(#[trigger] p.funcs@[i], n)
}

/// Writes S-expressions into a string, looking names up in a table.
pub struct SExprCtx<'a> {
    pub str: String,
    pub sym_table: &'a SymTable,
}

/// A node that can be written as an S-expression.
pub trait SExpr {
    /// The node's S-expression.
    spec fn sexpr(&self, names: Seq<Seq<char>>) -> Seq<char>;

    /// Every symbol of the node is below `n`.
    spec fn syms_below(&self, n: nat) -> bool;

    fn write(&self, ctx: &mut SExprCtx)
        requires
            self.syms_below(old(ctx).sym_table@.len()),
        ensures
            final(ctx).sym_table == old(ctx).sym_table,
            final(ctx).str@ == old(ctx).str@ + self.sexpr(old(ctx).sym_table@),
    ;
}

impl SExpr for Program {
    open spec fn sexpr(&self, names: Seq<Seq<char>>) -> Seq<char> {
        program_sexpr(*self, names)
    }

    open spec fn syms_below(&self, n: nat) -> bool {
        program_syms(*self, n)
    }

    fn write(&self, ctx: &mut SExprCtx) {
        ctx.write_program(self)
    }
}

impl SExpr for Expr {
    open spec fn sexpr(&self, names: Seq<Seq<char>>) -> Seq<char> {
        expr_sexpr(*self, names)
    }

    open spec fn syms_below(&self, n: nat) -> bool {
        expr_syms(*self, n)
    }

    fn write(&self, ctx: &mut SExprCtx) {
        ctx.write_expr(self)
    }
}

impl SExpr for Ty {
    open spec fn sexpr(&self, names: Seq<Seq<char>>) -> Seq<char> {
        ty_sexpr(*self, names)
    }

    open spec fn syms_below(&self, n: nat) -> bool {
        ty_syms(*self, n)
    }

    fn write(&self, ctx: &mut SExprCtx) {
        ctx.write_ty(self)
    }
}

/// The S-expression of a program, each function on a line of its own.
pub fn to_sexpr(program: &Program, sym_table: &SymTable) -> (r: String)
    requires
        program_syms(*program, sym_table@.len()),
    ensures
        r@ == program_sexpr(*program, sym_table@),
{
    let mut ctx = SExprCtx { str: String::new(), sym_table };
    ctx.write_program(program);
    assert(ctx.str@ =~= program_sexpr(*program, sym_table@));
    ctx.str
}

impl<'a> SExprCtx<'a> {
    fn write_program(&mut self, node: &Program)
        requires
            program_syms(*node, old(self).sym_table@.len()),
        ensures
            final(self).sym_table == old(self).sym_table,
            final(self).str@ == old(self).str@ + program_sexpr(*node, old(self).sym_table@),
    {
        let ghost names = self.sym_table@;
        let ghost parts = node.funcs@.map_values(|f: Func| func_sexpr(f, names) + "\n"@);
        let ghost start = self.str@;
        let mut i: usize = 0;
        proof {
            assert(parts.take(0) =~= Seq::<Seq<char>>::empty());
        }
        while i < node.funcs.len()
            invariant
                i <= node.funcs.len(),
                names == self.sym_table@,
                self.sym_table == old(self).sym_table,
                program_syms(*node, names.len()),
                parts == node.funcs@.map_values(|f: Func| func_sexpr(f, names) + "\n"@),
                self.str@ == start + flat(parts.take(i as int)),
            decreases node.funcs.len() - i,
        {
            proof {
                lemma_flat_step(parts, i as int);
                assert(func_syms(node.funcs@[i as int], names.len()));
            }
            self.write_func(&node.funcs[i]);
            push_str(&mut self.str, "\n");
            i = i + 1;
            proof {
                assert(self.str@ =~= start + flat(parts.take(i as int)));
            }
        }
        proof {
            lemma_flat_all(parts);
        }
    }

    fn write_func(&mut self, node: &Func)
        requires
            func_syms(*node, old(self).sym_table@.len()),
        ensures
            final(self).sym_table == old(self).sym_table,
            final(self).str@ == old(self).str@ + func_sexpr(*node, old(self).sym_table@),
    {
        let ghost names = self.sym_table@;
        let ghost start = self.str@;
        push_str(&mut self.str, "(func ");
        self.write_sym(node.name.sym);
        push_str(&mut self.str, " (params");
        let ghost parts = node.params@.map_values(|p: (Ident, Ty)| param_sexpr(p, names));
        let ghost mid = self.str@;
        let mut i: usize = 0;
        proof {
            assert(parts.take(0) =~= Seq::<Seq<char>>::empty());
            assert(mid =~= mid + flat(parts.take(0)));
        }
        while i < node.params.len()
            invariant
                i <= node.params.len(),
                names == self.sym_table@,
                self.sym_table == old(self).sym_table,
                func_syms(*node, names.len()),
                parts == node.params@.map_values(|p: (Ident, Ty)| param_sexpr(p, names)),
                self.str@ == mid + flat(parts.take(i as int)),
            decreases node.params.len() - i,
        {
            proof {
                lemma_flat_step(parts, i as int);
            }
            let ghost before = self.str@;
            push_str(&mut self.str, " (");
            self.write_sym(node.params[i].0.sym);
            push_str(&mut self.str, " ");
            self.write_ty(&node.params[i].1);
            push_str(&mut self.str, ")");
            proof {
                assert(self.str@ =~= before + param_sexpr(node.params@[i as int], names));
            }
            i = i + 1;
            proof {
                assert(self.str@ =~= mid + flat(parts.take(i as int)));
            }
        }
        proof {
            lemma_flat_all(parts);
        }
        push_str(&mut self.str, ") ");
        self.write_block(&node.body);
        push_str(&mut self.str, ")");
        proof {
            assert(self.str@ =~= start + func_sexpr(*node, names));
        }
    }

    fn write_block(&mut self, block: &Block)
        requires
            block_syms(*block, old(self).sym_table@.len()),
        ensures
            final(self).sym_table == old(self).sym_table,
            final(self).str@ == old(self).str@ + block_sexpr(*block, old(self).sym_table@),
        decreases block,
    {
        let ghost names = self.sym_table@;
        let ghost start = self.str@;
        push_str(&mut self.str, "(block");
        self.write_stmts(&block.stmts);
        match &block.tail {
            Some(tail) => {
                push_str(&mut self.str, " ");
                self.write_expr(tail);
            },
            None => push_str(&mut self.str, " none)"),
        }
        proof {
            assert(self.str@ =~= start + block_sexpr(*block, names));
        }
    }

    fn write_stmts(&mut self, stmts: &Vec<Stmt>)
        requires
            forall|i: int|
                0 <= i < stmts@.len() ==> stmt_syms(#[trigger] stmts@[i], old(self).sym_table@.len()),
        ensures
            final(self).sym_table == old(self).sym_table,
            final(self).str@ == old(self).str@ + flat(stmt_parts(*stmts, old(self).sym_table@)),
        decreases stmts,
    {
        let ghost names = self.sym_table@;
        let ghost parts = stmt_parts(*stmts, names);
        let ghost start = self.str@;
        let mut i: usize = 0;
        proof {
            assert(parts.take(0) =~= Seq::<Seq<char>>::empty());
            assert(start =~= start + flat(parts.take(0)));
        }
        while i < stmts.len()
            invariant
                i <= stmts.len(),
                names == self.sym_table@,
                self.sym_table == old(self).sym_table,
                forall|i: int| 0 <= i < stmts@.len() ==> stmt_syms(#[trigger] stmts@[i], names.len()),
                parts == stmt_parts(*stmts, names),
                self.str@ == start + flat(parts.take(i as int)),
            decreases stmts.len() - i,
        {
            proof {
                lemma_flat_step(parts, i as int);
            }
            let ghost before = self.str@;
            push_str(&mut self.str, " ");
            self.write_stmt(&stmts[i]);
            i = i + 1;
            proof {
                assert(self.str@ =~= start + flat(parts.take(i as int)));
            }
        }
        proof {
            lemma_flat_all(parts);
        }
    }

    fn write_stmt(&mut self, stmt: &Stmt)
        requires
            stmt_syms(*stmt, old(self).sym_table@.len()),
        ensures
            final(self).sym_table == old(self).sym_table,
            final(self).str@ == old(self).str@ + stmt_sexpr(*stmt, old(self).sym_table@),
        decreases stmt,
    {
        let ghost names = self.sym_table@;
        let ghost start = self.str@;
        match &stmt.node {
            StmtKind::Expr(expr) => {
                self.write_expr(expr);
            },
            StmtKind::Let(name, ty, value, mutability) => {
                match mutability {
                    Mutability::Not => push_str(&mut self.str, "(let "),
                    Mutability::Mut => push_str(&mut self.str, "(var "),
                };
                match ty {
                    Some(ty) => self.write_ty(ty),
                    None => push_str(&mut self.str, "_"),
                }
                push_str(&mut self.str, " ");
                self.write_sym(name.sym);
                push_str(&mut self.str, " ");
                self.write_expr(value);
                push_str(&mut self.str, ")");
            },
            StmtKind::Assign(lhs, rhs) => {
                push_str(&mut self.str, "(= ");
                self.write_sym(lhs.sym);
                push_str(&mut self.str, " ");
                self.write_expr(rhs);
                push_str(&mut self.str, ")");
            },
        }
        proof {
            assert(self.str@ =~= start + stmt_sexpr(*stmt, names));
        }
    }

    fn write_exprs(&mut self, exprs: &Vec<Expr>)
        requires
            forall|i: int|
                0 <= i < exprs@.len() ==> expr_syms(#[trigger] exprs@[i], old(self).sym_table@.len()),
        ensures
            final(self).sym_table == old(self).sym_table,
            final(self).str@ == old(self).str@ + flat(expr_parts(*exprs, old(self).sym_table@)),
        decreases exprs,
    {
        let ghost names = self.sym_table@;
        let ghost parts = expr_parts(*exprs, names);
        let ghost start = self.str@;
        let mut i: usize = 0;
        proof {
            assert(parts.take(0) =~= Seq::<Seq<char>>::empty());
            assert(start =~= start + flat(parts.take(0)));
        }
        while i < exprs.len()
            invariant
                i <= exprs.len(),
                names == self.sym_table@,
                self.sym_table == old(self).sym_table,
                forall|i: int| 0 <= i < exprs@.len() ==> expr_syms(#[trigger] exprs@[i], names.len()),
                parts == expr_parts(*exprs, names),
                self.str@ == start + flat(parts.take(i as int)),
            decreases exprs.len() - i,
        {
            proof {
                lemma_flat_step(parts, i as int);
            }
            push_str(&mut self.str, " ");
            self.write_expr(&exprs[i]);
            i = i + 1;
            proof {
                assert(self.str@ =~= start + flat(parts.take(i as int)));
            }
        }
        proof {
            lemma_flat_all(parts);
        }
    }

    fn write_expr(&mut self, node: &Expr)
        requires
            expr_syms(*node, old(self).sym_table@.len()),
        ensures
            final(self).sym_table == old(self).sym_table,
            final(self).str@ == old(self).str@ + expr_sexpr(*node, old(self).sym_table@),
        decreases node,
    {
        let ghost names = self.sym_table@;
        let ghost start = self.str@;
        match &node.node {
            ExprKind::Lit(lit) => self.write_lit(lit),
            ExprKind::Var(var) => {
                push_str(&mut self.str, "(var ");
                self.write_sym(var.sym);
                push_str(&mut self.str, ")");
            },
            ExprKind::Unary(op, rhs, _) => {
                push_str(&mut self.str, "(");
                self.write_unaryop(*op);
                push_str(&mut self.str, " ");
                self.write_expr(rhs);
                push_str(&mut self.str, ")");
            },
            ExprKind::Binary(op, lhs, rhs, _) => {
                push_str(&mut self.str, "(");
                self.write_binop(*op);
                push_str(&mut self.str, " ");
                self.write_expr(lhs);
                push_str(&mut self.str, " ");
                self.write_expr(rhs);
                push_str(&mut self.str, ")");
            },
            ExprKind::Call(func, args, _) => {
                push_str(&mut self.str, "(call ");
                self.write_expr(func);
                self.write_exprs(args);
                push_str(&mut self.str, ")");
            },
            ExprKind::Grouped(expr) => self.write_expr(expr),
            ExprKind::Array(exprs) => {
                push_str(&mut self.str, "(array");
                self.write_exprs(exprs);
                push_str(&mut self.str, ")");
            },
            ExprKind::Index(expr, index) => {
                push_str(&mut self.str, "(index ");
                self.write_expr(expr);
                push_str(&mut self.str, " ");
                self.write_expr(index);
                push_str(&mut self.str, ")");
            },
            ExprKind::If { cond, then, els } => {
                push_str(&mut self.str, "(if ");
                self.write_expr(cond);
                push_str(&mut self.str, " ");
                self.write_expr(then);
                push_str(&mut self.str, " ");
                match els {
                    Some(x) => self.write_expr(x),
                    None => push_str(&mut self.str, "none"),
                }
                push_str(&mut self.str, ")");
            },
            ExprKind::Block(block) => {
                self.write_block(block);
            },
        }
        proof {
            assert(self.str@ =~= start + expr_sexpr(*node, names));
        }
    }

    fn write_unaryop(&mut self, op: crate::ast::UnaryOp)
        ensures
            final(self).sym_table == old(self).sym_table,
            final(self).str@ == old(self).str@ + unaryop_text(op),
    {
        let t = op.to_string();
        push_str(&mut self.str, t.as_str());
    }

    fn write_binop(&mut self, op: crate::ast::BinOp)
        ensures
            final(self).sym_table == old(self).sym_table,
            final(self).str@ == old(self).str@ + binop_text(op),
    {
        let t = op.to_string();
        push_str(&mut self.str, t.as_str());
    }

    fn write_lit(&mut self, lit: &Lit)
        requires
            lit_syms(*lit, old(self).sym_table@.len()),
        ensures
            final(self).sym_table == old(self).sym_table,
            final(self).str@ == old(self).str@ + lit_sexpr(*lit, old(self).sym_table@),
    {
        let ghost names = self.sym_table@;
        let ghost start = self.str@;
        match lit {
            Lit::Null => push_str(&mut self.str, "null"),
            Lit::Bool(false) => push_str(&mut self.str, "false"),
            Lit::Bool(true) => push_str(&mut self.str, "true"),
            Lit::Int(sym) => {
                push_str(&mut self.str, "(int ");
                self.write_sym(*sym);
                push_str(&mut self.str, ")");
            },
            Lit::Float(sym) => {
                push_str(&mut self.str, "(float ");
                self.write_sym(*sym);
                push_str(&mut self.str, ")");
            },
            Lit::Str(sym) => {
                push_str(&mut self.str, "(str \"");
                let s = self.sym_table.get_str(*sym);
                let escaped = escape(s);
                push_str(&mut self.str, escaped.as_str());
                push_str(&mut self.str, "\")");
            },
            Lit::Error(_) => push_str(&mut self.str, "err"),
        }
        proof {
            assert(self.str@ =~= start + lit_sexpr(*lit, names));
        }
    }

    fn write_tys(&mut self, tys: &Vec<Ty>)
        requires
            forall|i: int|
                0 <= i < tys@.len() ==> ty_syms(#[trigger] tys@[i], old(self).sym_table@.len()),
        ensures
            final(self).sym_table == old(self).sym_table,
            final(self).str@ == old(self).str@ + flat(ty_parts(*tys, old(self).sym_table@)),
        decreases tys,
    {
        let ghost names = self.sym_table@;
        let ghost parts = ty_parts(*tys, names);
        let ghost start = self.str@;
        let mut i: usize = 0;
        proof {
            assert(parts.take(0) =~= Seq::<Seq<char>>::empty());
            assert(start =~= start + flat(parts.take(0)));
        }
        while i < tys.len()
            invariant
                i <= tys.len(),
                names == self.sym_table@,
                self.sym_table == old(self).sym_table,
                forall|i: int| 0 <= i < tys@.len() ==> ty_syms(#[trigger] tys@[i], names.len()),
                parts == ty_parts(*tys, names),
                self.str@ == start + flat(parts.take(i as int)),
            decreases tys.len() - i,
        {
            proof {
                lemma_flat_step(parts, i as int);
            }
            push_str(&mut self.str, " ");
            self.write_ty(&tys[i]);
            i = i + 1;
            proof {
                assert(self.str@ =~= start + flat(parts.take(i as int)));
            }
        }
        proof {
            lemma_flat_all(parts);
        }
    }

    fn write_ty(&mut self, node: &Ty)
        requires
            ty_syms(*node, old(self).sym_table@.len()),
        ensures
            final(self).sym_table == old(self).sym_table,
            final(self).str@ == old(self).str@ + ty_sexpr(*node, old(self).sym_table@),
        decreases node,
    {
        let ghost names = self.sym_table@;
        let ghost start = self.str@;
        match &node.node {
            TyKind::Infer => push_str(&mut self.str, "_"),
            TyKind::Var(var) => self.write_sym(var.sym),
            TyKind::Nullable(ty) => {
                push_str(&mut self.str, "(? ");
                self.write_ty(ty);
                push_str(&mut self.str, ")");
            },
            TyKind::Array(ty) => {
                push_str(&mut self.str, "(array ");
                self.write_ty(ty);
                push_str(&mut self.str, ")");
            },
            TyKind::Tuple(tys) => {
                push_str(&mut self.str, "(tuple");
                self.write_tys(tys);
                push_str(&mut self.str, ")");
            },
        }
        proof {
            assert(self.str@ =~= start + ty_sexpr(*node, names));
        }
    }

    fn write_sym(&mut self, sym: Symbol)
        requires
            sym.index_of() < old(self).sym_table@.len(),
        ensures
            final(self).sym_table == old(self).sym_table,
            final(self).str@ == old(self).str@ + sym_text(old(self).sym_table@, sym),
    {
        push_str(&mut self.str, self.sym_table.get_str(sym));
    }
}

} // verus!
