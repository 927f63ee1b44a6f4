use fletch::diagnostics::{Diagnostic, Level, VecReporter};
use fletch::compile::find_main;
use fletch::driver::{check, failure_message, front_end, FletchOpts};
use fletch::interner::SymTable;
use fletch::name_resolution::NameResolution;
use fletch::parser::{ParseCtx, Parser};
use fletch::typecheck::TypeChecker;
use fletch::types::ty_ctx::TyCtx;

fn run_frontend(src: &str) -> Vec<Diagnostic> {
    // Parse
    let ctx = ParseCtx::new(SymTable::new(), VecReporter::new());
    let mut parser = Parser::new(ctx, src);
    let ast = parser.parse_program();
    let ctx = parser.finish();
    let sym_table = ctx.sym_interner;

    // Name resolution
    let mut name_resolution = NameResolution::new(&sym_table, ctx.errors);
    name_resolution.resolve_program(&ast);
    let (name_tables, errors) = name_resolution.finish();

    // Typecheck
    let mut checker = TypeChecker::new(TyCtx::new(), &name_tables, &sym_table, errors);
    checker.check_program(&ast);

    // Return diagnostics
    checker.into_errors().into_errors()
}

#[test]
fn test_undefined_var() {
    let src = r#"
        fn main() {
            let x = y;
        }"#;

    let errors = run_frontend(src);
    assert_eq!(errors.len(), 1);
    assert_eq!(errors[0].level, Level::Error);
    assert!(errors[0].primary.message.contains("cannot find"));
}

#[test]
fn check_shows_the_types_of_names() {
    let src = "fn main() {\n    let x = 1;\n    print(x)\n}";
    let result = check(src);
    assert!(result.diagnostics.is_empty());
    let texts: Vec<&str> = result.types.iter().map(|(_, t)| t.as_str()).collect();
    assert_eq!(texts, vec!["let x = int32", "fn print(any)", "let x = int32"]);
}

#[test]
fn check_reports_an_assignment_to_a_let() {
    let src = "fn main() {\n    let x = 1;\n    x = 2;\n}";
    let result = check(src);
    assert_eq!(result.diagnostics.len(), 1);
    assert_eq!(result.diagnostics[0].primary.message, "cannot assign to immutable binding");
    assert_eq!(result.diagnostics[0].secondary.len(), 1);
    assert_eq!(result.diagnostics[0].secondary[0].message, "variable was declared here");
}

#[test]
fn check_reports_type_errors() {
    let src = "fn f(a: bool) -> int {\n    let s: str = 1;\n    -a + a\n}";
    let result = check(src);
    let messages: Vec<&str> = result.diagnostics.iter().map(|d| d.primary.message.as_str()).collect();
    assert_eq!(
        messages,
        vec![
            "'int32' is not assignable to 'str'",
            "cannot apply unary operator '-' to 'bool'",
            "no implementation for '{err}' + 'bool'",
        ]
    );
}

#[test]
fn check_reports_unknown_types_and_calls() {
    let src = "fn g(x: nope) {\n    x(1);\n    1(2);\n    [1, 2][true];\n}";
    let result = check(src);
    let messages: Vec<&str> = result.diagnostics.iter().map(|d| d.primary.message.as_str()).collect();
    assert_eq!(
        messages,
        vec![
            "cannot find type 'nope' in scope",
            "cannot find type 'nope' in scope",
            "expected a function, found 'int32'",
            "'bool' is not assignable to 'int64'",
        ]
    );
}

#[test]
fn every_name_met_is_resolved() {
    let src = "fn main() {\n    let x = y;\n    z = x;\n    w(x)\n}";
    let ctx = ParseCtx::new(SymTable::new(), VecReporter::new());
    let mut parser = Parser::new(ctx, src);
    let ast = parser.parse_program();
    let ctx = parser.finish();
    let sym_table = ctx.sym_interner;
    let mut name_resolution = NameResolution::new(&sym_table, ctx.errors);
    name_resolution.resolve_program(&ast);
    let (tables, errors) = name_resolution.finish();
    assert_eq!(tables.idents.len(), 6);
    for ident in &tables.idents {
        assert!(tables.uses.contains_key(&ident.id.0));
    }
    let unresolved = tables.idents.iter().filter(|i| tables.uses[&i.id.0].is_err()).count();
    assert_eq!(unresolved, 3);
    assert_eq!(errors.diagnostics.len(), 3);
    assert_eq!(errors.diagnostics[0].primary.message, "cannot find `y` in this scope");
}

#[test]
fn front_end_finds_main_and_prints_the_tree() {
    let src = "fn helper() {\n}\nfn main() {\n    helper()\n}";
    let opts = FletchOpts { sexpr: true, disassemble: false };
    let r = front_end(src, opts);
    assert_eq!(r.num_errors, 0);
    assert!(r.diagnostics.is_empty());
    assert_eq!(r.main, Some(1));
    let text = r.sexpr.expect("asked for the tree");
    assert!(text.ends_with("\n\n"));
    assert_eq!(text.lines().count(), 3);
    assert!(text.contains("helper"));
}

#[test]
fn front_end_counts_errors_and_leaves_out_the_tree() {
    let src = "fn start() {\n    let x = y;\n    x = 2;\n}";
    let r = front_end(src, FletchOpts::default());
    assert!(r.sexpr.is_none());
    assert_eq!(r.main, None);
    assert_eq!(r.num_errors, 2);
    assert_eq!(r.diagnostics.len(), 2);
}

#[test]
fn failure_message_counts_errors() {
    assert_eq!(failure_message("prog.fl", 1), "error: could not run `prog.fl` due to 1 error");
    assert_eq!(failure_message("prog.fl", 3), "error: could not run `prog.fl` due to 3 errors");
    assert_eq!(failure_message("a", 0), "error: could not run `a` due to 0 errors");
}

#[test]
fn find_main_takes_the_first_main() {
    let ctx = ParseCtx::new(SymTable::new(), VecReporter::new());
    let mut parser = Parser::new(ctx, "fn a() {}\nfn main() {}\nfn main() {}");
    let ast = parser.parse_program();
    let ctx = parser.finish();
    assert_eq!(find_main(&ast, &ctx.sym_interner), Some(1));
}

#[test]
fn check_reports_resolution_before_type_errors() {
    let src = "fn main() {\n    let a: int32 = true;\n    print(b)\n}";
    let result = check(src);
    assert_eq!(result.diagnostics.len(), 2);
    assert_eq!(result.diagnostics[0].primary.message, "cannot find `b` in this scope");
    assert_eq!(result.diagnostics[1].level, Level::Error);
    assert!(result.diagnostics[1].primary.span.start < result.diagnostics[0].primary.span.start);
}
