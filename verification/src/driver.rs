//! The front end as a whole: reading, resolving and checking a program, and
//! what an editor is shown of the result.
use vstd::prelude::*;

use std::collections::HashMap;

use crate::ast::{Ident, Program};
use crate::ast::sexpr::{program_sexpr, to_sexpr};
use crate::compile::{find_main, is_main_index};
use crate::diagnostics::{count_errors, diag_views, DiagView, DiagnosticReporter, Diagnostic, ErrGuaranteed, Level, VecReporter};
use crate::interner::{Index, SymTable};
use crate::name_resolution::{res_program_s, DefId, NameResolution, NameTables, ResV};
use crate::parser::grammar::{program_loop_s, FuncV, PState};
use crate::parser::program::funcs_v;
use crate::parser::{ParseCtx, Parser};
use crate::span::Span;
use crate::text::{byte_len, decimal, push_decimal, push_str};
use crate::typecheck::check::program_s;
use crate::typecheck::{
    def_v, format_func, func_text, ident_names, Def, DefV, Env, TcV, TypeChecker,
};
use crate::types::ty::{comma_join, tys_view, ty_text, TyTree};
use crate::types::ty_ctx::TyCtx;

verus! {

/// What to print besides running the program.
#[derive(Clone, Copy, PartialEq, Eq, Structural, Debug)]
pub struct FletchOpts {
    pub sexpr: bool,
    pub disassemble: bool,
}

impl Default for FletchOpts {
    fn default() -> (r: Self)
        ensures
            !r.sexpr,
            !r.disassemble,
    {
        FletchOpts { sexpr: false, disassemble: false }
    }
}

/// The diagnostics of checking a program, and the type found at each span.
#[derive(Debug)]
pub struct CheckResult {
    pub diagnostics: Vec<Diagnostic>,
    pub types: Vec<(Span, String)>,
}

/// How a definition is shown where a name refers to it: a variable as
/// `let name = type`, a function by its signature.
pub open spec fn def_text(name: Seq<char>, d: DefV, names: Seq<Seq<char>>) -> Seq<char> {
    match d {
        DefV::Var(t) => "let "@ + name + " = "@ + ty_text(t, Seq::empty()),
        DefV::Func { name: n, ty_params, params, ret } => {
            let tp = ident_names(ty_params, names);
            "fn "@ + names[n as int] + (if tp.len() == 0 {
                Seq::empty()
            } else {
                "<"@ + comma_join(tp) + ">"@
            }) + (if params.len() == 0 {
                "()"@
            } else {
                "("@ + comma_join(params.map_values(|t: TyTree| ty_text(t, tp))) + ")"@
            }) + (if ret matches TyTree::Tuple(e) && e.len() == 0 {
                Seq::empty()
            } else {
                " -> "@ + ty_text(ret, tp)
            })
        },
    }
}

/// What is shown for the first `k` names met: for each that refers to a
/// checked definition, its span and the definition.
pub open spec fn types_s(
    idents: Seq<Ident>,
    uses: Map<u32, Result<DefId, ErrGuaranteed>>,
    defs: Map<u32, DefV>,
    names: Seq<Seq<char>>,
    k: int,
) -> Seq<(Span, Seq<char>)>
    decreases k,
{
    if 0 < k <= idents.len() {
        let before = types_s(idents, uses, defs, names, k - 1);
        let ident = idents[k - 1];
        if ident.sym.index_of() < names.len() {
            match uses.get(ident.id.0) {
                Some(Ok(d)) => if defs.contains_key(d.0) {
                    before.push(
                        (ident.span, def_text(names[ident.sym.index_of() as int], defs[d.0], names)),
                    )
                } else {
                    before
                },
                _ => before,
            }
        } else {
            before
        }
    } else {
        Seq::empty()
    }
}

/// The state name resolution starts from.
pub open spec fn res_start() -> ResV {
    ResV {
        defs: Map::empty(),
        uses: Map::empty(),
        scopes: Seq::empty(),
        idents: Seq::empty(),
        next: 0,
        print: None,
        reports: Seq::empty(),
        sink_agrees: true,
    }
}

/// The state type checking starts from.
pub open spec fn tc_start() -> TcV {
    TcV {
        type_map: Map::empty(),
        def_map: Map::empty(),
        ty_vars: Seq::empty(),
        reports: Seq::empty(),
        sink_agrees: true,
    }
}

/// Resolving `p` from the start.
pub open spec fn resolved(p: Program, names: Seq<Seq<char>>) -> ResV {
    res_program_s(res_start(), p, names)
}

/// Checking `p` from the start, after resolving it, where reading and
/// resolving it reported `before`.
pub open spec fn checked(p: Program, names: Seq<Seq<char>>, before: Seq<DiagView>) -> TcV {
    let rs = resolved(p, names);
    program_s(tc_start(), Env { names, uses: rs.uses, print: rs.print, sink_prior: before }, p)
}

/// What checking `src` shows, given the syntax tree `p` it was read into
/// and the diagnostics `parsed` that reading it reported: `p` is what the
/// grammar gives of `src`; the types are those of the names met by
/// resolving `p`, as checking `p` finds them; and the diagnostics are
/// `parsed`, then those of resolving, then those of checking.
#[verifier::opaque]
pub open spec fn check_outcome(
    src: Seq<char>,
    p: Program,
    parsed: Seq<DiagView>,
    types: Seq<(Span, Seq<char>)>,
    diags: Seq<DiagView>,
) -> bool {
    let (fs, st) = parse_s(src);
    let names = st.syms;
    let rs = resolved(p, names);
    let ts = checked(p, names, parsed + rs.reports);
    &&& funcs_v(p.funcs@) == fs
    &&& syntax_errors(src, parsed)
    &&& types == types_s(rs.idents, rs.uses, ts.def_map, names, rs.idents.len() as int)
    &&& diags == parsed + rs.reports + ts.reports
}

/// What the grammar gives of `src`: its functions, and the symbol table
/// and the number of diagnostics that reading it leaves.
pub open spec fn parse_s(src: Seq<char>) -> (Seq<FuncV>, PState) {
    program_loop_s(src, 0, PState { syms: Seq::empty(), errs: 0 }, Seq::empty())
}

/// What reading `src` reported: errors only, as many as the grammar counts;
/// none where every function reads without error, and every string literal
/// unescapes.
pub open spec fn syntax_errors(src: Seq<char>, parsed: Seq<DiagView>) -> bool {
    &&& parsed.len() == parse_s(src).1.errs
    &&& forall|i: int| 0 <= i < parsed.len() ==> (#[trigger] parsed[i]).level == Level::Error
}

/// The texts of a list of spans and strings.
pub open spec fn types_view(v: Seq<(Span, String)>) -> Seq<(Span, Seq<char>)> {
    v.map_values(|x: (Span, String)| (x.0, x.1@))
}

proof fn lemma_func_text(f: crate::typecheck::FuncDef, names: Seq<Seq<char>>)
    ensures
        func_text(f, names) == def_text(Seq::empty(), def_v(Def::Func(f)), names),
{
    let tp = ident_names(f.ty_params(), names);
    assert(f.params().map_values(|t: crate::types::ty::Ty| ty_text(t@, tp)) =~= tys_view(
        f.params(),
    ).map_values(|t: TyTree| ty_text(t, tp)));
}

/// For each name met, in order, that refers to a checked definition: its
/// span and how the definition is shown.
fn shown_types(name_tables: &NameTables, checker: &TypeChecker<VecReporter>, sym_table: &SymTable) -> (r: Vec<(Span, String)>)
    requires
        checker.wf(),
        checker.env().names == sym_table@,
    ensures
        types_view(r@) == types_s(
            name_tables.idents@,
            name_tables.uses@,
            checker.state().def_map,
            sym_table@,
            name_tables.idents@.len() as int,
        ),
{
    let ghost names = sym_table@;
    let ghost ts = checker.state();
    let ghost env = checker.env();
    let ghost rs_idents = name_tables.idents@;
    let ghost rs_uses = name_tables.uses@;
    let mut types: Vec<(Span, String)> = Vec::new();
    let n = name_tables.idents.len();
    let mut i: usize = 0;
    proof {
        assert(types_view(types@) =~= Seq::<(Span, Seq<char>)>::empty());
    }
    while i < n
        invariant
            n == name_tables.idents@.len(),
            i <= n,
            names == sym_table@,
            name_tables.idents@ == rs_idents,
            name_tables.uses@ == rs_uses,
            checker.state() == ts,
            checker.wf(),
            checker.env() == env,
            env.names == names,
            types_view(types@) == types_s(rs_idents, rs_uses, ts.def_map, names, i as int),
        decreases n - i,
    {
        let ident = name_tables.idents[i];
        let ghost before = types_view(types@);
        if ident.sym.into_usize() < sym_table.size() {
            match name_tables.uses.get(&ident.id.0) {
                Some(Ok(def_id)) => {
                    let d = def_id.0;
                    let defs = checker.def_map();
                    match defs.get(&d) {
                        Some(Def::Var(ty)) => {
                            let mut text = String::new();
                            push_str(&mut text, "let ");
                            push_str(&mut text, sym_table.get_str(ident.sym));
                            push_str(&mut text, " = ");
                            let none: Vec<Ident> = Vec::new();
                            let shown = ty.display_ctx(none.as_slice(), &sym_table);
                            proof {
                                assert(shown.names() =~= Seq::<Seq<char>>::empty());
                            }
                            push_str(&mut text, shown.to_string().as_str());
                            proof {
                                assert(ts.def_map[d] == def_v(Def::Var(*ty)));
                                assert(text@ =~= def_text(names[ident.sym.index_of() as int], ts.def_map[d], names));
                            }
                            types.push((ident.span, text));
                        },
                        Some(Def::Func(func)) => {
                            proof {
                                assert(ts.def_map.contains_key(d));
                                assert(ts.def_map[d] == def_v(Def::Func(*func)));
                                lemma_func_text(*func, names);
                            }
                            let text = format_func(func, &sym_table);
                            types.push((ident.span, text));
                        },
                        None => {},
                    }
                },
                _ => {},
            }
        }
        proof {
            assert(types_view(types@) =~= types_s(rs_idents, rs_uses, ts.def_map, names, i + 1));
        }
        i = i + 1;
    }
    types
}

/// Reads, resolves and checks `src`: the diagnostics found, and for each
/// name that refers to a checked definition, its span and that definition.
#[verifier::rlimit(40)]
pub fn check(src: &str) -> (r: CheckResult)
    requires
        byte_len(src@) <= u32::MAX,
    ensures
        exists|p: Program, parsed: Seq<DiagView>| #[trigger]
            check_outcome(src@, p, parsed, types_view(r.types@), diag_views(r.diagnostics@)),
{
    // Parse
    let sym_interner = SymTable::new();
    let errors = VecReporter::new();
    let ctx = ParseCtx::new(sym_interner, errors);
    proof {
        crate::text::lemma_len_le_byte_len(src@);
    }
    let mut parser = Parser::new(ctx, src);
    let ast = parser.parse_program();
    let ctx = parser.finish();
    let sym_table = ctx.sym_interner;
    let errors = ctx.errors;
    let ghost names = sym_table@;
    let ghost parsed = errors.given();

    // Name resolution
    let mut name_resolution = NameResolution::new(&sym_table, errors);
    name_resolution.resolve_program(&ast);
    let ghost rs = name_resolution.state();
    let (name_tables, errors) = name_resolution.finish();

    // Typecheck
    let mut checker = TypeChecker::new(TyCtx::new(), &name_tables, &sym_table, errors);
    checker.check_program(&ast);
    let types = shown_types(&name_tables, &checker, &sym_table);
    let ghost ts = checker.state();
    let mut errors = checker.into_errors();
    let diagnostics = errors.into_errors();
    let r = CheckResult { diagnostics, types };
    proof {
        reveal(check_outcome);
        assert(rs == resolved(ast, names));
        assert(ts == checked(ast, names, parsed + rs.reports));
        assert(types_view(r.types@) == types_view(types@));
        assert(check_outcome(src@, ast, parsed, types_view(r.types@), diag_views(r.diagnostics@)));
    }
    r
}

/// What running a program finds before it is compiled: its S-expression,
/// where asked for, the diagnostics, how many of them are errors, and where
/// the program starts.
#[derive(Debug)]
pub struct FrontEnd {
    pub sexpr: Option<String>,
    pub diagnostics: Vec<Diagnostic>,
    pub num_errors: usize,
    pub main: Option<usize>,
}

/// The text of an optional string.
pub open spec fn opt_text(o: Option<String>) -> Option<Seq<char>> {
    match o {
        Some(s) => Some(s@),
        None => None,
    }
}

/// What the front end gives of `src`, given the syntax tree `p` it was read
/// into and the diagnostics `parsed` that reading it reported: `p` is what
/// the grammar gives of `src`; the S-expression is that of `p` and a line
/// break, where `opts` asks for it; the diagnostics are `parsed`, then those
/// of resolving `p`, then those of checking it; and `main` is the position
/// of the first function of `p` named `main`.
#[verifier::opaque]
pub open spec fn front_end_outcome(
    src: Seq<char>,
    p: Program,
    parsed: Seq<DiagView>,
    opts: FletchOpts,
    sexpr: Option<Seq<char>>,
    diags: Seq<DiagView>,
    main: Option<usize>,
) -> bool {
    let (fs, st) = parse_s(src);
    let names = st.syms;
    let rs = resolved(p, names);
    let ts = checked(p, names, parsed + rs.reports);
    &&& funcs_v(p.funcs@) == fs
    &&& syntax_errors(src, parsed)
    &&& sexpr == (if opts.sexpr {
        Some(program_sexpr(p, names) + "\n"@)
    } else {
        None
    })
    &&& diags == parsed + rs.reports + ts.reports
    &&& is_main_index(p.funcs@, names, main)
}

/// Reads, resolves and checks `src`, as running it does before compiling.
#[verifier::rlimit(40)]
pub fn front_end(src: &str, opts: FletchOpts) -> (r: FrontEnd)
    requires
        byte_len(src@) <= u32::MAX,
    ensures
        r.num_errors == count_errors(r.diagnostics@),
        exists|p: Program, parsed: Seq<DiagView>| #[trigger]
            front_end_outcome(src@, p, parsed, opts, opt_text(r.sexpr), diag_views(r.diagnostics@), r.main),
{
    // Parse
    let sym_interner = SymTable::new();
    let errors = VecReporter::new();
    let ctx = ParseCtx::new(sym_interner, errors);
    proof {
        crate::text::lemma_len_le_byte_len(src@);
    }
    let mut parser = Parser::new(ctx, src);
    let ast = parser.parse_program();
    let ctx = parser.finish();
    let sym_table = ctx.sym_interner;
    let errors = ctx.errors;
    let ghost names = sym_table@;
    let ghost parsed = errors.given();

    // Print s-expr
    let sexpr = if opts.sexpr {
        let mut buf = to_sexpr(&ast, &sym_table);
        push_str(&mut buf, "\n");
        Some(buf)
    } else {
        None
    };

    // Name resolution
    let mut name_resolution = NameResolution::new(&sym_table, errors);
    name_resolution.resolve_program(&ast);
    let ghost rs = name_resolution.state();
    let (name_tables, errors) = name_resolution.finish();

    // Typecheck
    let mut checker = TypeChecker::new(TyCtx::new(), &name_tables, &sym_table, errors);
    checker.check_program(&ast);
    let ghost ts = checker.state();
    let mut errors = checker.into_errors();
    let num_errors = errors.num_errors();
    let diagnostics = errors.into_errors();
    let main = find_main(&ast, &sym_table);
    let r = FrontEnd { sexpr, diagnostics, num_errors, main };
    proof {
        reveal(front_end_outcome);
        assert(rs == resolved(ast, names));
        assert(ts == checked(ast, names, parsed + rs.reports));
        assert(front_end_outcome(src@, ast, parsed, opts, opt_text(r.sexpr), diag_views(r.diagnostics@), r.main));
    }
    r
}

/// The line that says a program was not run.
pub open spec fn failure_text(filename: Seq<char>, num_errors: nat) -> Seq<char> {
    "error: could not run `"@ + filename + "` due to "@ + decimal(num_errors) + " error"@ + (if num_errors == 1 {
        Seq::empty()
    } else {
        "s"@
    })
}

/// The line that says the program in `filename` was not run, for the number
/// of errors found in it.
pub fn failure_message(filename: &str, num_errors: usize) -> (r: String)
    ensures
        r@ == failure_text(filename@, num_errors as nat),
{
    let mut r = String::new();
    push_str(&mut r, "error: could not run `");
    push_str(&mut r, filename);
    push_str(&mut r, "` due to ");
    push_decimal(&mut r, num_errors as u64);
    push_str(&mut r, " error");
    if num_errors != 1 {
        push_str(&mut r, "s");
    }
    assert(r@ =~= failure_text(filename@, num_errors as nat));
    r
}

} // verus!
