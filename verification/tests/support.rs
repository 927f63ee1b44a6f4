use fletch::ast::Symbol;
use fletch::diagnostics::handler::{DiagCtx, Diagnostic as HDiagnostic, Diagnostics, Level as HLevel};
use fletch::diagnostics::{dummy_reporter, Diagnostic, DiagnosticReporter, Level, VecReporter};
use fletch::interner::IndexedInterner;
use fletch::span::Span;

#[test]
fn interner_intern_symbols() {
    let mut interner = IndexedInterner::new();

    let foo: Symbol = interner.intern_str("foo");
    let bar: Symbol = interner.intern_str("bar");
    let hello: Symbol = interner.intern_str("hello world");

    // Check that symbols can be converted back to strings
    assert_eq!(interner.get_str(foo), "foo");
    assert_eq!(interner.get_str(bar), "bar");
    assert_eq!(interner.get_str(hello), "hello world");

    // Check that symbols are duplicated
    assert_eq!(interner.intern_str::<Symbol>("bar"), bar);
    assert_eq!(interner.intern_str::<Symbol>("hello world"), hello);
    assert_eq!(interner.intern_str::<Symbol>("foo"), foo);
    assert_eq!(interner.size(), 3);
}

#[test]
fn symbol_intern_symbols() {
    let mut interner = IndexedInterner::new();

    let foo: Symbol = interner.intern_str("foo");
    let bar: Symbol = interner.intern_str("bar");
    let hello: Symbol = interner.intern_str("hello world");

    assert_eq!(interner.get_str(foo), "foo");
    assert_eq!(interner.get_str(bar), "bar");
    assert_eq!(interner.get_str(hello), "hello world");

    assert_eq!(interner.intern_str::<Symbol>("bar"), bar);
    assert_eq!(interner.intern_str::<Symbol>("hello world"), hello);
    assert_eq!(interner.intern_str::<Symbol>("foo"), foo);
    assert_eq!(interner.size(), 3);
}

#[test]
fn diagnostics_builders() {
    let d = Diagnostic::new(Level::Warning, "msg", Span::new(1, 2))
        .with_label("here", Span::new(3, 4))
        .with_note("a note");
    assert_eq!(d.level, Level::Warning);
    assert!(!d.is_error());
    assert_eq!(d.primary.message, "msg");
    assert_eq!(d.secondary.len(), 1);
    assert_eq!(d.secondary[0].message, "here");
    assert_eq!(d.secondary[0].span, Span::new(3, 4));
    assert_eq!(d.notes, vec!["a note".to_string()]);
    assert!(Diagnostic::error("e", Span::dummy()).is_error());
    // the reporters treat what `warning` makes as an error
    assert!(Diagnostic::warning("w", Span::dummy()).is_error());
}

#[test]
fn vec_reporter_counts_errors() {
    let mut r = VecReporter::new();
    r.assert_ok();
    r.report(Diagnostic::error("one", Span::dummy()));
    r.report(Diagnostic::new(Level::Warning, "two", Span::dummy()));
    let _ = r.report_err(Diagnostic::error("three", Span::dummy()));
    assert_eq!(r.num_errors(), 2);
    let all = r.into_errors();
    assert_eq!(all.len(), 3);
    assert_eq!(all[1].primary.message, "two");
    assert_eq!(r.num_errors(), 0);
    r.assert_ok();
    let mut d = dummy_reporter();
    d.report(Diagnostic::error("dropped", Span::dummy()));
}

#[test]
fn diag_ctx_passes_on() {
    let mut ctx = DiagCtx::new(Diagnostics::new());
    ctx.emit(HDiagnostic::error("oops", Span::new(0, 1)));
    let handler = ctx.into_handler();
    assert_eq!(handler.diagnostics.len(), 1);
    let d = &handler.diagnostics[0];
    assert_eq!(d.level, HLevel::Error);
    assert_eq!(d.message, "oops");
    assert!(d.labels[0].primary);
    assert_eq!(d.labels[0].message, None);
}
