use fletch::ast::{BinOp as AstBinOp, Program as AstProgram};
use fletch::diagnostics::VecReporter;
use fletch::interner::SymTable;
use fletch::ir::{BinOpKind, Error, ErrorKind, ExprKind, Lit};
use fletch::lower::{check_type, lower_expr, lower_program};
use fletch::parser::{ParseCtx, Parser};
use fletch::span::Span;
use fletch::types::ty::{IntTy, UIntTy};
use fletch::types::ty_ctx::TyCtx;

fn parse(src: &str) -> (AstProgram, SymTable) {
    let ctx = ParseCtx::new(SymTable::new(), VecReporter::new());
    let mut parser = Parser::new(ctx, src);
    let program = parser.parse_program();
    let ctx = parser.finish();
    assert!(ctx.errors.diagnostics.is_empty());
    (program, ctx.sym_interner)
}

fn other_message(e: &Error) -> String {
    match &e.kind {
        ErrorKind::Other(m) => m.clone(),
        ErrorKind::MismatchedType { .. } => panic!("not an error of another kind"),
    }
}

#[test]
fn lowers_arithmetic_on_int32() {
    let (ast, names) = parse("fn main() { 1 + 2 * 3 }");
    let ctx = TyCtx::new();
    let program = lower_program(&ast, &ctx, &names).ok().unwrap();
    assert_eq!(program.expr.ty.to_string(), ctx.mk_int(IntTy::Int32).to_string());
    match &program.expr.kind {
        ExprKind::BinOp(b) => {
            assert_eq!(b.op, BinOpKind::Add);
            assert!(matches!(b.lhs.kind, ExprKind::Lit(Lit::Int32(1))));
            match &b.rhs.kind {
                ExprKind::BinOp(m) => {
                    assert_eq!(m.op, BinOpKind::Mul);
                    assert!(matches!(m.lhs.kind, ExprKind::Lit(Lit::Int32(2))));
                    assert!(matches!(m.rhs.kind, ExprKind::Lit(Lit::Int32(3))));
                },
                _ => panic!("expected a product"),
            }
        },
        _ => panic!("expected a sum"),
    }
}

#[test]
fn lowers_null() {
    let (ast, names) = parse("fn main() { null }");
    let ctx = TyCtx::new();
    let program = lower_program(&ast, &ctx, &names).ok().unwrap();
    assert!(matches!(program.expr.kind, ExprKind::Lit(Lit::Null)));
    assert_eq!(program.expr.ty.to_string(), ctx.mk_nullable(ctx.mk_never()).to_string());
}

#[test]
fn missing_main_is_an_error() {
    let (ast, names) = parse("fn f() { 1 }");
    let e = lower_program(&ast, &TyCtx::new(), &names).err().unwrap();
    assert_eq!(other_message(&e), "no main function");
    assert_eq!(e.span, Span::new(0, 0));
}

#[test]
fn main_without_tail_is_an_error() {
    let (ast, names) = parse("fn main() { let x = 1; }");
    let e = lower_program(&ast, &TyCtx::new(), &names).err().unwrap();
    assert_eq!(other_message(&e), "no tail expression");
    assert_eq!(e.span, Span::new(0, 0));
}

#[test]
fn first_main_is_lowered() {
    let (ast, names) = parse("fn f() { null }\nfn main() { 7 }\nfn main() { null }");
    let program = lower_program(&ast, &TyCtx::new(), &names).ok().unwrap();
    assert!(matches!(program.expr.kind, ExprKind::Lit(Lit::Int32(7))));
}

#[test]
fn integer_expected_as_int8_is_int8() {
    let (ast, names) = parse("fn main() { 100 }");
    let ctx = TyCtx::new();
    let tail = ast.funcs[0].body.tail.as_ref().unwrap();
    let e = lower_expr(tail, Some(ctx.mk_int(IntTy::Int8)), &ctx, &names).ok().unwrap();
    assert!(matches!(e.kind, ExprKind::Lit(Lit::Int8(100))));
    assert_eq!(e.ty.to_string(), ctx.mk_int(IntTy::Int8).to_string());
}

#[test]
fn integer_where_another_type_is_expected_is_a_mismatch() {
    let (ast, names) = parse("fn main() { 1 }");
    let ctx = TyCtx::new();
    let tail = ast.funcs[0].body.tail.as_ref().unwrap();
    let e = lower_expr(tail, Some(ctx.mk_uint(UIntTy::UInt64)), &ctx, &names).err().unwrap();
    match &e.kind {
        ErrorKind::MismatchedType { expected, got } => {
            assert_eq!(expected, &ctx.mk_uint(UIntTy::UInt64).to_string());
            assert_eq!(got, &ctx.mk_int(IntTy::Int32).to_string());
        },
        _ => panic!("expected a mismatch"),
    }
    assert_eq!(e.span, tail.span);
}

#[test]
fn check_type_compares_types() {
    let ctx = TyCtx::new();
    let span = Span::new(3, 5);
    assert!(check_type(&ctx.mk_int(IntTy::Int32), &ctx.mk_int(IntTy::Int32), span).is_ok());
    let e = check_type(&ctx.mk_int(IntTy::Int8), &ctx.mk_int(IntTy::Int32), span).err().unwrap();
    assert_eq!(e.span, span);
    assert!(matches!(e.kind, ErrorKind::MismatchedType { .. }));
}

#[test]
fn binop_error_names_both_types_and_the_operator() {
    let ctx = TyCtx::new();
    let e = Error::new_binop(AstBinOp::Add, &ctx.mk_int(IntTy::Int32), &ctx.mk_uint(UIntTy::UInt64), Span::new(1, 2));
    let expected = format!(
        "no implementation for {} {} +",
        ctx.mk_int(IntTy::Int32).to_string(),
        ctx.mk_uint(UIntTy::UInt64).to_string()
    );
    assert_eq!(other_message(&e), expected);
}
