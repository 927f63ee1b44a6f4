use std::collections::HashMap;

use fletch::name_resolution::NameTables;
use fletch::ast::sexpr::{to_sexpr, SExpr, SExprCtx};
use fletch::ast::{
    BinOp, Block, Expr, ExprKind, Func, Ident, Lit, Mutability, NodeId, Program, Stmt, StmtKind,
    Symbol, Ty, TyKind, UnaryOp,
};
use fletch::compile::CompilerError;
use fletch::diagnostics::VecReporter;
use fletch::driver::FletchOpts;
use fletch::interner::SymTable;
use fletch::span::{Span, Spanned};
use fletch::typecheck::{Def, FuncDef, TypeChecker};
use fletch::types::ty::{ParamId, TyKind as TypeKind};
use fletch::types::ty_ctx::TyCtx;

fn no_tables() -> NameTables {
    NameTables { defs: HashMap::new(), uses: HashMap::new(), idents: vec![], print_def_id: None }
}

fn node<T>(n: T) -> Spanned<T> {
    Spanned { id: NodeId(0), node: n, span: Span::dummy() }
}

fn ident(sym: Symbol) -> Ident {
    Ident { id: NodeId(0), sym, span: Span::dummy() }
}

#[test]
fn sexpr_of_a_program() {
    let mut table = SymTable::new();
    let main: Symbol = table.intern_str("main");
    let x: Symbol = table.intern_str("x");
    let int: Symbol = table.intern_str("int");
    let one: Symbol = table.intern_str("1");
    let hi: Symbol = table.intern_str("hi\n");

    let ty: Ty = node(TyKind::Nullable(Box::new(node(TyKind::Var(ident(int))))));
    let let_stmt: Stmt = node(StmtKind::Let(
        ident(x),
        Some(Box::new(ty)),
        Box::new(node(ExprKind::Lit(Lit::Int(one)))),
        Mutability::Not,
    ));
    let assign: Stmt = node(StmtKind::Assign(
        ident(x),
        Box::new(node(ExprKind::Binary(
            BinOp::Add,
            Box::new(node(ExprKind::Var(ident(x)))),
            Box::new(node(ExprKind::Unary(
                UnaryOp::Negate,
                Box::new(node(ExprKind::Lit(Lit::Int(one)))),
                Span::dummy(),
            ))),
            Span::dummy(),
        ))),
    ));
    let call: Expr = node(ExprKind::Call(
        Box::new(node(ExprKind::Var(ident(main)))),
        vec![node(ExprKind::Lit(Lit::Str(hi))), node(ExprKind::Lit(Lit::Null))],
        Span::dummy(),
    ));
    let func = Func {
        name: ident(main),
        ty_params: vec![],
        params: vec![(ident(x), node(TyKind::Array(Box::new(node(TyKind::Infer)))))],
        ret: None,
        body: Block { stmts: vec![let_stmt, assign], tail: Some(Box::new(call)) },
    };
    let program = Program { funcs: vec![func] };
    assert_eq!(
        to_sexpr(&program, &table),
        "(func main (params (x (array _))) (block (let (? int) x (int 1)) (= x (+ (var x) (- (int 1)))) (call (var main) (str \"hi\\n\") null))\n"
    );
}

#[test]
fn sexpr_of_expressions_and_types() {
    let mut table = SymTable::new();
    let a: Symbol = table.intern_str("a");
    let e: Expr = node(ExprKind::If {
        cond: Box::new(node(ExprKind::Lit(Lit::Bool(true)))),
        then: Box::new(node(ExprKind::Block(Block { stmts: vec![], tail: None }))),
        els: None,
    });
    let mut ctx = SExprCtx { str: String::new(), sym_table: &table };
    e.write(&mut ctx);
    assert_eq!(ctx.str, "(if true (block none) none)");

    let t: Ty = node(TyKind::Tuple(vec![node(TyKind::Var(ident(a))), node(TyKind::Infer)]));
    let mut ctx = SExprCtx { str: String::new(), sym_table: &table };
    t.write(&mut ctx);
    assert_eq!(ctx.str, "(tuple a _)");

    let idx: Expr = node(ExprKind::Index(
        Box::new(node(ExprKind::Array(vec![node(ExprKind::Lit(Lit::Bool(false)))]))),
        Box::new(node(ExprKind::Grouped(Box::new(node(ExprKind::Var(ident(a))))))),
    ));
    let mut ctx = SExprCtx { str: String::new(), sym_table: &table };
    idx.write(&mut ctx);
    assert_eq!(ctx.str, "(index (array false) (var a))");
}

#[test]
fn lowering_written_types() {
    let mut table = SymTable::new();
    let int: Symbol = table.intern_str("int");
    let t: Symbol = table.intern_str("T");
    let nope: Symbol = table.intern_str("nope");
    let tables = no_tables();
    let mut checker = TypeChecker::new(TyCtx::new(), &tables, &table, VecReporter::new());
    let ctx = TyCtx::new();
    let c = ctx.common();

    let written: Ty = node(TyKind::Array(Box::new(node(TyKind::Var(ident(int))))));
    assert_eq!(checker.lower_ty(&written), ctx.mk_array(c.int64.clone()));

    let params = [ident(t)];
    let written: Ty = node(TyKind::Tuple(vec![
        node(TyKind::Var(ident(t))),
        node(TyKind::Nullable(Box::new(node(TyKind::Infer)))),
    ]));
    assert_eq!(
        checker.lower_ty_with_params(&written, &params),
        ctx.mk_tuple(vec![ctx.mk_param(ParamId(0)), c.opt_infer.clone()])
    );

    let unknown: Ty = node(TyKind::Var(ident(nope)));
    assert!(checker.lower_ty(&unknown).is_err());
    let mut errors = checker.into_errors();
    let all = errors.into_errors();
    assert_eq!(all.len(), 1);
    assert_eq!(all[0].primary.message, "cannot find type 'nope' in scope");
}

#[test]
fn fresh_inference_variables() {
    let table = SymTable::new();
    let tables = no_tables();
    let mut checker = TypeChecker::new(TyCtx::new(), &tables, &table, VecReporter::new());
    checker.push_vars();
    let ctx = TyCtx::new();
    assert_eq!(checker.fresh_ty_var(), ctx.mk_var(fletch::types::ty::VarId(0)));
    assert_eq!(checker.fresh_ty_var(), ctx.mk_var(fletch::types::ty::VarId(1)));
}

#[test]
fn definitions() {
    let ctx = TyCtx::new();
    let v = Def::Var(ctx.common().str.clone());
    assert_eq!(v.as_var(), Some(ctx.common().str.clone()));
    let mut table = SymTable::new();
    let f: Symbol = table.intern_str("f");
    let d = Def::Func(FuncDef::new(f, vec![], vec![], ctx.common().unit()));
    assert_eq!(d.as_var(), None);
}

#[test]
fn fold_in_preorder() {
    let ctx = TyCtx::new();
    let c = ctx.common();
    let t = ctx.mk_func(vec![c.int8.clone(), ctx.mk_array(c.str.clone())], c.bool.clone());
    let mut count = |n: usize, _t: &fletch::types::ty::Ty| n + 1;
    assert_eq!(t.fold(0, &mut count), 5);
    let mut names = Vec::new();
    t.visit(&mut |ty: &fletch::types::ty::Ty| names.push(ty.to_string()));
    assert_eq!(names, vec!["fn(int8, [str]) -> bool", "int8", "[str]", "str", "bool"]);
    assert!(matches!(c.never.kind(), TypeKind::Never));
}

#[test]
fn compiler_error_text() {
    assert_eq!(CompilerError::InvalidLiteral.to_string(), "invalid literal");
    assert_eq!(CompilerError::UndefinedName("x".into()).to_string(), "cannot find name `x`");
    assert_eq!(CompilerError::Arity { exp: 2, act: 3 }.to_string(), "expected 2 arguments, got 3");
    assert_eq!(CompilerError::TypeError("bad".to_string()).to_string(), "bad");
    let opts = FletchOpts::default();
    assert!(!opts.sexpr && !opts.disassemble);
}
