use fletch::ast::sexpr::to_sexpr;
use fletch::diagnostics::{Level, VecReporter};
use fletch::interner::SymTable;
use fletch::parser::{ParseCtx, Parser};

fn parse(src: &str) -> (String, Vec<String>) {
    let ctx = ParseCtx::new(SymTable::new(), VecReporter::new());
    let mut parser = Parser::new(ctx, src);
    let program = parser.parse_program();
    let ctx = parser.finish();
    let text = to_sexpr(&program, &ctx.sym_interner);
    let messages = ctx.errors.diagnostics.iter().map(|d| d.primary.message.clone()).collect();
    (text, messages)
}

#[test]
fn parse_simple_program() {
    let (text, errors) = parse("fn main() {\n    print(2 + 2)\n}");
    assert_eq!(text, "(func main (params) (block (call (var print) (+ (int 2) (int 2))))\n");
    assert!(errors.is_empty());
}

#[test]
fn parse_statements_and_types() {
    let src = "fn f(x: int, y: [bool]?) -> (int, str) {\n    let a = 1;\n    var b: int = -a * 3;\n    b = b + 1;\n    if b < 2 { b; } else { 0 }\n}";
    let (text, errors) = parse(src);
    assert_eq!(
        text,
        "(func f (params (x int) (y (? (array bool)))) (block (let _ a (int 1)) (var int b (* (- (var a)) (int 3))) (= b (+ (var b) (int 1))) (if (< (var b) (int 2)) (block (var b) none) (block (int 0)))\n"
    );
    assert!(errors.is_empty());
}

#[test]
fn parse_precedence_calls_and_indexing() {
    let (text, errors) = parse("fn g() { 1 + 2 * 3 == f(1, 2.5)[0] }");
    assert_eq!(
        text,
        "(func g (params) (block (== (+ (int 1) (* (int 2) (int 3))) (index (call (var f) (int 1) (float 2.5)) (int 0))))\n"
    );
    assert!(errors.is_empty());
}

#[test]
fn parse_recovers_from_a_bad_statement() {
    let (text, errors) = parse("fn main() { let = 1; x }");
    assert_eq!(text, "(func main (params) (block (var x))\n");
    assert_eq!(errors, vec!["expected an identifier".to_string()]);
}

#[test]
fn parse_skips_to_the_next_function() {
    let (text, errors) = parse("let x = 1; fn g() {}");
    assert_eq!(text, "(func g (params) (block none))\n");
    assert_eq!(errors, vec!["expected 'fn'".to_string()]);
}

#[test]
fn parse_string_literals() {
    let (text, errors) = parse("fn s() { [\"a\\tb\", \"a\\qb\"] }");
    assert_eq!(text, "(func s (params) (block (array (str \"a\\tb\") (str \"err\")))\n");
    assert_eq!(errors.len(), 1);
    assert!(errors[0].starts_with("Invalid escape sequence"));
}

#[test]
fn parse_reports_assignment_to_a_non_name() {
    let ctx = ParseCtx::new(SymTable::new(), VecReporter::new());
    let mut parser = Parser::new(ctx, "fn h() { 1 = 2; }");
    let program = parser.parse_program();
    let ctx = parser.finish();
    assert_eq!(program.funcs.len(), 1);
    assert_eq!(ctx.errors.diagnostics.len(), 1);
    assert_eq!(ctx.errors.diagnostics[0].level, Level::Error);
    assert_eq!(ctx.errors.diagnostics[0].primary.message, "this expression can not be assigned to");
}
