use fletch::ast::{Ident, NodeId, Symbol};
use fletch::diagnostics::{Diagnostic, DiagnosticReporter, VecReporter};
use fletch::interner::SymTable;
use fletch::span::Span;
use fletch::types::infer::{check_arity, check_tuple_len, TypeErrorKind};
use fletch::types::ty::{FloatTy, IntTy, ParamId, Ty, TyKind, UIntTy, VarId};
use fletch::types::ty_ctx::TyCtx;

#[test]
fn test_opt_never() {
    let ctx = TyCtx::new();
    let actual = ctx.common().opt_never.clone();
    let expected = ctx.mk_ty_from_kind(TyKind::Nullable(ctx.mk_ty_from_kind(TyKind::Never)));
    assert_eq!(actual, expected);
}

#[test]
fn test_is_final() {
    let ctx = TyCtx::new();
    let infer = ctx.common().infer.clone();
    let pending = ctx.common().pending.clone();
    let i32 = ctx.common().int32.clone();

    assert_eq!(
        ctx.mk_tuple(vec![i32.clone(), ctx.mk_func(vec![infer.clone()], pending)]).is_final(),
        false
    );
    assert_eq!(ctx.mk_tuple(vec![i32.clone(), ctx.mk_func(vec![infer], i32)]).is_final(), true);
}

#[test]
fn test_subtyping() {
    let ctx = TyCtx::new();
    let common = ctx.common();
    let actual = ctx.mk_tuple(vec![common.int32.clone(), common.bool.clone(), common.never.clone()]);
    let expected = ctx.mk_tuple(vec![
        common.int64.clone(),
        ctx.mk_nullable(common.bool.clone()),
        common.str.clone(),
    ]);
    ctx.reconcile(&actual, &expected).unwrap();
}

#[test]
fn reconcile_errors_nest() {
    let ctx = TyCtx::new();
    let common = ctx.common();
    let actual = ctx.mk_nullable(ctx.mk_array(common.int32.clone()));
    let expected = ctx.mk_nullable(ctx.mk_array(common.str.clone()));
    let err = ctx.reconcile(&actual, &expected).unwrap_err();
    assert!(matches!(err.kind(), TypeErrorKind::Unassignable { .. }));
    assert_eq!(err.causes().len(), 1);
    assert_eq!(err.causes()[0].causes().len(), 1);
    assert_eq!(err.causes()[0].causes()[0].causes().len(), 0);

    let actual = ctx.mk_func(vec![common.int32.clone(), common.bool.clone()], common.str.clone());
    let expected = ctx.mk_func(vec![common.int32.clone(), common.str.clone()], common.float32.clone());
    let err = ctx.reconcile(&actual, &expected).unwrap_err();
    assert_eq!(err.causes().len(), 2);
}

#[test]
fn reconcile_lengths_and_inference() {
    let ctx = TyCtx::new();
    let c = ctx.common();
    let a = ctx.mk_tuple(vec![c.int32.clone()]);
    let e = ctx.mk_tuple(vec![c.int32.clone(), c.int32.clone()]);
    match ctx.reconcile(&a, &e).unwrap_err().kind() {
        TypeErrorKind::TupleLength { exp, act } => {
            assert_eq!(exp.0, 2);
            assert_eq!(act.0, 1);
        }
        _ => panic!("expected a tuple length error"),
    }
    assert_eq!(ctx.reconcile(&c.infer, &c.int8).unwrap(), c.int8);
    assert!(matches!(ctx.reconcile(&c.infer, &c.infer).unwrap_err().kind(), TypeErrorKind::Ambiguous));
    assert!(matches!(
        ctx.reconcile(&c.infer, &c.opt_infer).unwrap_err().kind(),
        TypeErrorKind::Ambiguous
    ));
    assert_eq!(ctx.reconcile(&c.int8, &c.int64).unwrap(), c.int64);
    assert!(ctx.reconcile(&c.int64, &c.int8).is_err());
    assert_eq!(ctx.reconcile(&c.int8, &c.opt_int8).unwrap(), c.opt_int8);
    assert!(check_tuple_len(2, 2).is_ok());
    assert!(matches!(
        check_arity(1, 3).unwrap_err().kind(),
        TypeErrorKind::Arity { exp, act } if exp.0 == 3 && act.0 == 1
    ));
}

#[test]
fn meet_and_join() {
    let ctx = TyCtx::new();
    let c = ctx.common();
    assert_eq!(ctx.meet(&c.int8, &c.int32), c.int8);
    assert_eq!(ctx.join(&c.int8, &c.int32), c.int32);
    assert_eq!(ctx.meet(&c.int8, &c.integer), c.int8);
    assert_eq!(ctx.join(&c.uint16, &c.integer), c.integer);
    assert_eq!(ctx.meet(&c.opt_int8, &c.int32), c.int8);
    assert_eq!(ctx.join(&c.int8, &c.opt_int32), c.opt_int32);
    assert_eq!(ctx.meet(&c.str, &c.bool), c.never);
    assert_eq!(ctx.join(&c.str, &c.bool), c.any);
    assert_eq!(ctx.meet(&c.never, &c.str), c.never);
    assert_eq!(ctx.join(&c.float32, &c.float64), c.float64);
    let t1 = ctx.mk_tuple(vec![c.int8.clone(), c.str.clone()]);
    let t2 = ctx.mk_tuple(vec![c.int16.clone(), c.str.clone()]);
    assert_eq!(ctx.join(&t1, &t2), t2);
    assert_eq!(ctx.meet(&t1, &t2), t1);
    // commutativity on a few values
    for (a, b) in [(&c.int8, &c.opt_str), (&c.any, &c.never), (&c.infer, &c.pending)] {
        assert_eq!(ctx.meet(a, b), ctx.meet(b, a));
        assert_eq!(ctx.join(a, b), ctx.join(b, a));
    }
}

#[test]
fn instantiate_and_substitute() {
    let ctx = TyCtx::new();
    let c = ctx.common();
    let mut params = vec![
        ctx.mk_tuple(vec![c.infer.clone(), c.int8.clone(), c.infer.clone()]),
        ctx.mk_array(c.infer.clone()),
    ];
    assert_eq!(ctx.instantiate(&mut params), 3);
    assert_eq!(
        params[0],
        ctx.mk_tuple(vec![ctx.mk_var(VarId(0)), c.int8.clone(), ctx.mk_var(VarId(1))])
    );
    assert_eq!(params[1], ctx.mk_array(ctx.mk_var(VarId(2))));

    let t = ctx.mk_func(vec![ctx.mk_param(ParamId(1))], ctx.mk_param(ParamId(0)));
    let s = ctx.substitute_params(&t, &[c.str.clone(), c.bool.clone()]);
    assert_eq!(s, ctx.mk_func(vec![c.bool.clone()], c.str.clone()));
}

#[test]
fn update_bounds_meets_and_joins() {
    let ctx = TyCtx::new();
    let c = ctx.common();
    let mut bounds = vec![ctx.new_bounds(), ctx.new_bounds()];
    let v0 = ctx.mk_var(VarId(0));
    let v1 = ctx.mk_var(VarId(1));
    ctx.update_bounds(&v0, &c.int32, &mut bounds);
    ctx.update_bounds(&c.int8, &v1, &mut bounds);
    assert_eq!(bounds[0].upper, c.int32);
    assert_eq!(bounds[0].lower, c.never);
    assert_eq!(bounds[1].lower, c.int8);
    assert_eq!(bounds[1].upper, c.any);
    // the parameters of a function swap sides
    let f_act = ctx.mk_func(vec![c.int16.clone()], c.str.clone());
    let f_exp = ctx.mk_func(vec![v0.clone()], c.str.clone());
    ctx.update_bounds(&f_act, &f_exp, &mut bounds);
    assert_eq!(bounds[0].upper, c.int16);
}

#[test]
fn type_display() {
    let ctx = TyCtx::new();
    let c = ctx.common();
    assert_eq!(c.opt_never.to_string(), "null");
    assert_eq!(ctx.mk_nullable(ctx.mk_array(c.int32.clone())).to_string(), "[int32]?");
    assert_eq!(c.unit().to_string(), "()");
    let f = ctx.mk_func(vec![c.str.clone(), c.bool.clone()], c.unit());
    assert_eq!(f.to_string(), "fn(str, bool)");
    let g = ctx.mk_func(vec![], c.float64.clone());
    assert_eq!(g.to_string(), "fn() -> float64");
    assert_eq!(ctx.mk_var(VarId(12)).to_string(), "?12");
    assert_eq!(ctx.mk_param(ParamId(3)).to_string(), "$3");
    assert_eq!(c.infer.to_string(), "_");
    assert_eq!(c.pending.to_string(), "?");
    assert_eq!(c.uint64.to_string(), "uint64");
    assert_eq!(c.integer.to_string(), "int");

    let mut table = SymTable::new();
    let t: Symbol = table.intern_str("T");
    let params = [Ident { id: NodeId(0), sym: t, span: Span::dummy() }];
    let p = ctx.mk_param(ParamId(0));
    assert_eq!(p.display_ctx(&params, &table).to_string(), "T");
    let outer = c.str.display_ctx(&params, &table);
    assert_eq!(p.with_ctx(&outer).to_string(), "T");

    let mut reporter = VecReporter::new();
    let err = reporter.report_err(Diagnostic::error("bad", Span::dummy()));
    assert_eq!(ctx.mk_error(err).to_string(), "{err}");
    assert!(ctx.mk_error(err).is_err());
}

#[test]
fn type_queries() {
    let ctx = TyCtx::new();
    let c = ctx.common();
    assert!(c.unit().is_unit());
    assert!(c.never.is_never());
    assert!(ctx.mk_array(c.infer.clone()).has_infer());
    assert!(!c.int8.has_infer());
    assert_eq!(ctx.mk_array(c.bool.clone()).array_elem(), Some(c.bool.clone()));
    assert_eq!(ctx.mk_nullable(ctx.mk_array(c.bool.clone())).array_elem(), None);
    assert_eq!(c.int8.array_elem(), None);
    let tup = ctx.mk_tuple(vec![c.int8.clone(), c.str.clone()]);
    assert_eq!(tup.tuple_elems().unwrap(), &[c.int8.clone(), c.str.clone()][..]);
    assert!(ctx.mk_nullable(tup.clone()).tuple_elems().is_none());
    assert!(ctx.mk_array(c.int8.clone()).tuple_elems().is_none());
    assert!(matches!(c.uint8.kind(), TyKind::UInt(UIntTy::UInt8)));
    assert!(matches!(c.float32.kind(), TyKind::Float(FloatTy::Float32)));
    assert!(matches!(c.int16.kind(), TyKind::Int(IntTy::Int16)));
}

#[test]
fn ty_equality_is_structural() {
    let ctx = TyCtx::new();
    let c = ctx.common();
    let a: Ty = ctx.mk_tuple(vec![c.int8.clone(), ctx.mk_array(c.str.clone())]);
    let b: Ty = ctx.mk_tuple(vec![c.int8.clone(), ctx.mk_array(c.str.clone())]);
    assert_eq!(a, b);
    assert_ne!(a, ctx.mk_tuple(vec![c.int8.clone()]));
}

#[test]
fn test_cause_chain() {
    let ctx = TyCtx::new();
    let common = ctx.common();
    let actual = ctx.mk_nullable(ctx.mk_array(common.int32.clone()));
    let expected = ctx.mk_nullable(ctx.mk_array(common.str.clone()));
    let result = ctx.reconcile(&actual, &expected);

    // Output should resemble:
    // 'int32[]?' is not assignable to 'str[]?'
    //     'int32[]' is not assignable to 'str[]'
    //         'int32' is not assignable to 'str'
    let err_message = result.unwrap_err().to_string_alternate();
    assert_eq!(err_message.lines().count(), 3);
}

#[test]
fn test_cause_chain_tuple() {
    let ctx = TyCtx::new();
    let common = ctx.common();
    let actual = ctx.mk_tuple(vec![common.int32.clone(), common.bool.clone()]);
    let expected = ctx.mk_tuple(vec![common.int32.clone(), common.str.clone()]);
    let result = ctx.reconcile(&actual, &expected);

    // Output should resemble:
    // '(int32, bool)' is not assignable to '(int32, str)'
    //     'bool' is not assignable to 'str'
    let err_message = result.unwrap_err().to_string_alternate();
    assert_eq!(err_message.lines().count(), 2);
}

#[test]
fn test_cause_chain_func() {
    let ctx = TyCtx::new();
    let common = ctx.common();
    let actual = ctx.mk_func(vec![common.int32.clone(), common.bool.clone()], common.str.clone());
    let expected = ctx.mk_func(vec![common.int32.clone(), common.str.clone()], common.float32.clone());
    let result = ctx.reconcile(&actual, &expected);

    // Output should resemble:
    // '(int32, bool) -> str' is not assignable to '(int32, str) -> float32'
    //     'str' is not assignable to 'bool'
    //     'str' is not assignable to 'float32'
    let err_message = result.unwrap_err().to_string_alternate();
    assert_eq!(err_message.lines().count(), 3);
}

#[test]
fn type_error_messages() {
    let ctx = TyCtx::new();
    let common = ctx.common();
    let actual = ctx.mk_nullable(ctx.mk_array(common.int32.clone()));
    let expected = ctx.mk_nullable(ctx.mk_array(common.str.clone()));
    let err = ctx.reconcile(&actual, &expected).unwrap_err();
    assert_eq!(err.to_string(), "'[int32]?' is not assignable to '[str]?'");
    assert_eq!(
        err.to_string_alternate(),
        "'[int32]?' is not assignable to '[str]?'\n    '[int32]' is not assignable to '[str]'\n        'int32' is not assignable to 'str'"
    );
    let arity = check_arity(2, 1).unwrap_err();
    assert_eq!(arity.to_string(), "expected 1 argument, but got 2 arguments");
}

#[test]
fn meet_and_join_lattice_laws_on_examples() {
    let ctx = TyCtx::new();
    let c = ctx.common();
    let samples = vec![c.int8.clone(), c.int32.clone(), c.str.clone(), c.opt_int32.clone(), c.never.clone(), c.any.clone()];
    for a in &samples {
        assert_eq!(ctx.meet(a, a), a.clone());
        assert_eq!(ctx.join(a, a), a.clone());
        assert_eq!(ctx.meet(&c.never, a), c.never.clone());
        assert_eq!(ctx.meet(&c.any, a), a.clone());
        assert_eq!(ctx.join(&c.never, a), a.clone());
        assert_eq!(ctx.join(&c.any, a), c.any.clone());
        for b in &samples {
            assert_eq!(ctx.meet(a, b), ctx.meet(b, a));
            assert_eq!(ctx.join(a, b), ctx.join(b, a));
        }
    }
    assert_eq!(ctx.meet(&c.int8, &c.int64), c.int8.clone());
    assert_eq!(ctx.join(&c.int8, &c.int64), c.int64.clone());
    assert_eq!(ctx.meet(&c.int32, &c.str), c.never.clone());
    assert_eq!(ctx.join(&c.int32, &c.str), c.any.clone());
    assert_eq!(ctx.join(&c.opt_int32, &c.int64), ctx.mk_nullable(c.int64.clone()));
}
