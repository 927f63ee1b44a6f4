//! The type checker's view of definitions, and the lowering of written
//! types into types.
use vstd::prelude::*;

use crate::ast::{self, Ident, Symbol};
use crate::ast::sexpr::ty_syms;
use std::collections::HashMap;

use crate::diagnostics::{diag_view, DiagView, Diagnostic, DiagnosticReporter, ErrGuaranteed, Level};
use crate::name_resolution::{DefId, NameTables};
use crate::span::Span;
use crate::interner::{Index, SymTable};
use crate::text::push_str;
use crate::types::infer::{bounds_view, TyBounds};
use crate::types::ty::{
    comma_join, ty_text, tys_view, FloatTy, IntTy, ParamId, Ty, TyKind, TyTree, UIntTy, VarId,
};
use crate::types::ty_ctx::TyCtx;

pub mod check;

verus! {

/// A definition: a function with its signature, or a variable with its type.
#[derive(Debug)]
pub enum Def {
    Func(FuncDef),
    Var(Ty),
}

/// The signature of a function.
#[derive(Debug)]
pub struct FuncDef {
    name: Symbol,
    ty_params: Vec<Ident>,
    params: Vec<Ty>,
    ret: Ty,
}

impl FuncDef {
    pub fn new(name: Symbol, ty_params: Vec<Ident>, params: Vec<Ty>, ret: Ty) -> (r: Self)
        ensures
            r.name() == name,
            r.ty_params() == ty_params@,
            tys_view(r.params()) == tys_view(params@),
            r.ret()@ == ret@,
    {
        FuncDef { name, ty_params, params, ret }
    }

    pub closed spec fn name(&self) -> Symbol {
        self.name
    }

    pub closed spec fn ty_params(&self) -> Seq<Ident> {
        self.ty_params@
    }

    pub closed spec fn params(&self) -> Seq<Ty> {
        self.params@
    }

    pub closed spec fn ret(&self) -> Ty {
        self.ret
    }
}

impl Def {
    /// The type of a variable; `None` for a function.
    pub fn as_var(&self) -> (r: Option<Ty>)
        ensures
            match (self, r) {
                (Def::Var(ty), Some(t)) => t@ == ty@,
                (Def::Func(_), None) => true,
                _ => false,
            },
    {
        match self {
            Self::Var(ty) => Some(ty.deep_clone()),
            _ => None,
        }
    }
}

/// The type a built-in type name stands for.
pub open spec fn builtin_ty(name: Seq<char>) -> Option<TyTree> {
    if name == "never"@ {
        Some(TyTree::Never)
    } else if name == "null"@ {
        Some(TyTree::Nullable(Box::new(TyTree::Never)))
    } else if name == "bool"@ {
        Some(TyTree::Bool)
    } else if name == "uint8"@ {
        Some(TyTree::UInt(UIntTy::UInt8))
    } else if name == "uint16"@ {
        Some(TyTree::UInt(UIntTy::UInt16))
    } else if name == "uint32"@ {
        Some(TyTree::UInt(UIntTy::UInt32))
    } else if name == "uint64"@ || name == "uint"@ {
        Some(TyTree::UInt(UIntTy::UInt64))
    } else if name == "int8"@ {
        Some(TyTree::Int(IntTy::Int8))
    } else if name == "int16"@ {
        Some(TyTree::Int(IntTy::Int16))
    } else if name == "int32"@ {
        Some(TyTree::Int(IntTy::Int32))
    } else if name == "int64"@ || name == "int"@ {
        Some(TyTree::Int(IntTy::Int64))
    } else if name == "float32"@ {
        Some(TyTree::Float(FloatTy::Float32))
    } else if name == "float64"@ || name == "float"@ {
        Some(TyTree::Float(FloatTy::Float64))
    } else if name == "str"@ {
        Some(TyTree::Str)
    } else {
        None
    }
}

/// The position of the first type parameter named by `sym`.
pub open spec fn param_position(params: Seq<Ident>, sym: Symbol) -> Option<nat>
    decreases params.len(),
{
    if params.len() == 0 {
        None
    } else if params[0].sym == sym {
        Some(0)
    } else {
        match param_position(params.drop_first(), sym) {
            Some(p) => Some(p + 1),
            None => None,
        }
    }
}

/// The type a written type stands for, given the type parameters in scope:
/// a parameter's name stands for the parameter, a built-in name for its
/// type, and any other name for an error.
pub open spec fn lower_spec(t: ast::Ty, params: Seq<Ident>, names: Seq<Seq<char>>) -> TyTree
    decreases t,
{
    match t.node {
        ast::TyKind::Infer => TyTree::Infer,
        ast::TyKind::Var(ident) => match param_position(params, ident.sym) {
            Some(p) => TyTree::Param(p as u32),
            None => match builtin_ty(names[ident.sym.index_of() as int]) {
                Some(b) => b,
                None => TyTree::Error,
            },
        },
        ast::TyKind::Nullable(inner) => TyTree::Nullable(Box::new(lower_spec(*inner, params, names))),
        ast::TyKind::Array(inner) => TyTree::Array(Box::new(lower_spec(*inner, params, names))),
        ast::TyKind::Tuple(tys) => TyTree::Tuple(
            Seq::new(
                tys@.len(),
                |i: int|
                    if 0 <= i < tys@.len() {
                        lower_spec(tys@[i], params, names)
                    } else {
                        TyTree::Never
                    },
            ),
        ),
    }
}

/// What a definition is, as values.
pub enum DefV {
    Func { name: nat, ty_params: Seq<Ident>, params: Seq<TyTree>, ret: TyTree },
    Var(TyTree),
}

pub open spec fn def_v(d: Def) -> DefV {
    match d {
        Def::Func(f) => DefV::Func {
            name: f.name().index_of(),
            ty_params: f.ty_params(),
            params: tys_view(f.params()),
            ret: f.ret()@,
        },
        Def::Var(t) => DefV::Var(t@),
    }
}

/// The state of type checking, as values: the type of each checked
/// expression (by node id), the definitions (by definition id), the bounds
/// of the inference variables of each expression being checked, and the
/// diagnostics reported.
pub struct TcV {
    pub type_map: Map<u32, TyTree>,
    pub def_map: Map<u32, DefV>,
    pub ty_vars: Seq<Seq<(TyTree, TyTree)>>,
    pub reports: Seq<DiagView>,
    /// Whether the sink holds what it held when checking started, followed
    /// by `reports`.
    pub sink_agrees: bool,
}

/// What type checking reads: the names, what each use of a name refers
/// to, and the definition of the built-in `print`; and what the sink held
/// when checking started.
pub struct Env {
    pub names: Seq<Seq<char>>,
    pub uses: Map<u32, Result<DefId, ErrGuaranteed>>,
    pub print: Option<DefId>,
    pub sink_prior: Seq<DiagView>,
}

/// An error diagnostic with a message and a span.
pub open spec fn error_view(message: Seq<char>, span: Span) -> DiagView {
    DiagView {
        level: Level::Error,
        message,
        span,
        label_messages: Seq::empty(),
        label_spans: Seq::empty(),
    }
}

/// The message for a type name that is not in scope.
pub open spec fn unknown_type_text(name: Seq<char>) -> Seq<char> {
    "cannot find type '"@ + name + "' in scope"@
}

/// What lowering a written type reports: each name that is neither a type
/// parameter nor a built-in type, in order.
pub open spec fn lower_reports(t: ast::Ty, params: Seq<Ident>, names: Seq<Seq<char>>) -> Seq<
    DiagView,
>
    decreases t, 0nat,
{
    match t.node {
        ast::TyKind::Infer => Seq::empty(),
        ast::TyKind::Var(ident) => match param_position(params, ident.sym) {
            Some(_) => Seq::empty(),
            None => match builtin_ty(names[ident.sym.index_of() as int]) {
                Some(_) => Seq::empty(),
                None => seq![
                    error_view(
                        unknown_type_text(names[ident.sym.index_of() as int]),
                        ident.span,
                    ),
                ],
            },
        },
        ast::TyKind::Nullable(inner) => lower_reports(*inner, params, names),
        ast::TyKind::Array(inner) => lower_reports(*inner, params, names),
        ast::TyKind::Tuple(tys) => lower_reports_list(tys, tys@.len() as int, params, names),
    }
}

/// What lowering the first `k` written types of a list reports.
pub open spec fn lower_reports_list(
    tys: Vec<ast::Ty>,
    k: int,
    params: Seq<Ident>,
    names: Seq<Seq<char>>,
) -> Seq<DiagView>
    decreases tys, k,
{
    if 0 < k <= tys@.len() {
        lower_reports_list(tys, k - 1, params, names) + lower_reports(tys@[k - 1], params, names)
    } else {
        Seq::empty()
    }
}

/// The part of the type checker that turns written types into types and
/// hands out inference variables.
pub struct TypeChecker<'a, R: DiagnosticReporter> {
    ty_ctx: TyCtx,
    name_tables: &'a NameTables,
    type_map: HashMap<u32, Ty>,
    def_map: HashMap<u32, Def>,
    sym_table: &'a SymTable,
    errors: R,
    ty_vars: Vec<Vec<TyBounds>>,
    reported: Ghost<Seq<DiagView>>,
    prior: Ghost<Seq<DiagView>>,
}

impl<'a, R: DiagnosticReporter> TypeChecker<'a, R> {
    pub fn new(ty_ctx: TyCtx, name_tables: &'a NameTables, sym_table: &'a SymTable, errors: R) -> (r:
        Self)
        ensures
            r.sym_table() == sym_table,
            r.env() == (Env {
                names: sym_table@,
                uses: name_tables.uses@,
                print: name_tables.print_def_id,
                sink_prior: errors.given(),
            }),
            r.state() == (TcV {
                type_map: Map::empty(),
                def_map: Map::empty(),
                ty_vars: Seq::empty(),
                reports: Seq::empty(),
                sink_agrees: true,
            }),
    {
        let r = TypeChecker {
            ty_ctx,
            name_tables,
            type_map: HashMap::new(),
            def_map: HashMap::new(),
            sym_table,
            errors,
            ty_vars: Vec::new(),
            reported: Ghost(Seq::empty()),
            prior: Ghost(errors.given()),
        };
        proof {
            assert(r.state().type_map =~= Map::empty());
            assert(r.state().def_map =~= Map::empty());
            assert(r.state().ty_vars =~= Seq::empty());
        }
        r
    }

    pub closed spec fn sym_table(&self) -> &'a SymTable {
        self.sym_table
    }

    /// The bounds of the inference variables of each expression being checked.
    pub closed spec fn ty_vars(&self) -> Seq<Seq<(TyTree, TyTree)>> {
        self.ty_vars@.map_values(|v: Vec<TyBounds>| bounds_view(v@))
    }

    /// The state of the checker, as values.
    pub closed spec fn state(&self) -> TcV {
        TcV {
            type_map: self.type_map@.map_values(|t: Ty| t@),
            def_map: self.def_map@.map_values(|d: Def| def_v(d)),
            ty_vars: self.ty_vars(),
            reports: self.reported@,
            sink_agrees: self.errors.given() == self.prior@ + self.reported@,
        }
    }

    /// What the checker reads.
    pub closed spec fn env(&self) -> Env {
        Env {
            names: self.sym_table@,
            uses: self.name_tables.uses@,
            print: self.name_tables.print_def_id,
            sink_prior: self.prior@,
        }
    }

    /// Gives the reporter back.
    pub fn into_errors(self) -> (r: R)
        ensures
            self.state().sink_agrees ==> r.given() == self.env().sink_prior + self.state().reports,
    {
        self.errors
    }

    /// The type of each expression checked against a known type.
    pub fn finish(self) -> (r: HashMap<u32, Ty>)
        ensures
            r@.map_values(|t: Ty| t@) == self.state().type_map,
    {
        self.type_map
    }

    /// Reports an error, and records it.
    fn report_err(&mut self, diagnostic: Diagnostic) -> (r: ErrGuaranteed)
        requires
            diagnostic.level == Level::Error,
        ensures
            final(self).state() == (TcV {
                reports: old(self).state().reports.push(diag_view(diagnostic)),
                ..old(self).state()
            }),
            final(self).env() == old(self).env(),
            final(self).sym_table() == old(self).sym_table(),
    {
        let ghost given = self.errors.given();
        self.reported = Ghost(self.reported@.push(diag_view(diagnostic)));
        let r = self.errors.report_err(diagnostic);
        proof {
            crate::diagnostics::lemma_push_agrees(given, self.prior@, old(self).reported@, diag_view(diagnostic));
        }
        r
    }

    /// Reports a diagnostic, and records it.
    fn report(&mut self, diagnostic: Diagnostic)
        ensures
            final(self).state() == (TcV {
                reports: old(self).state().reports.push(diag_view(diagnostic)),
                ..old(self).state()
            }),
            final(self).env() == old(self).env(),
            final(self).sym_table() == old(self).sym_table(),
    {
        let ghost given = self.errors.given();
        self.reported = Ghost(self.reported@.push(diag_view(diagnostic)));
        self.errors.report(diagnostic);
        proof {
            crate::diagnostics::lemma_push_agrees(given, self.prior@, old(self).reported@, diag_view(diagnostic));
        }
    }

    /// Starts the inference variables of a new expression.
    pub fn push_vars(&mut self)
        ensures
            final(self).sym_table() == old(self).sym_table(),
            final(self).env() == old(self).env(),
            final(self).ty_vars() == old(self).ty_vars().push(Seq::empty()),
            final(self).state() == (TcV { ty_vars: old(self).ty_vars().push(Seq::empty()), ..old(self).state() }),
    {
        self.ty_vars.push(Vec::new());
        proof {
            assert(bounds_view(Seq::<TyBounds>::empty()) =~= Seq::empty());
            assert(self.ty_vars() =~= old(self).ty_vars().push(Seq::empty()));
        }
    }

    /// A new inference variable with empty bounds, numbered after the
    /// variables of the expression being checked.
    pub fn fresh_ty_var(&mut self) -> (r: Ty)
        requires
            old(self).ty_vars().len() > 0,
            old(self).ty_vars().last().len() < u32::MAX,
        ensures
            final(self).sym_table() == old(self).sym_table(),
            final(self).env() == old(self).env(),
            final(self).state() == (TcV { ty_vars: final(self).ty_vars(), ..old(self).state() }),
            r@ == TyTree::Var(old(self).ty_vars().last().len() as u32),
            final(self).ty_vars() == old(self).ty_vars().drop_last().push(
                old(self).ty_vars().last().push((TyTree::Never, TyTree::Any)),
            ),
    {
        let last = self.ty_vars.len() - 1;
        let mut vars = self.ty_vars.remove(last);
        proof {
            assert(bounds_view(vars@) == old(self).ty_vars().last());
        }
        let id = VarId(vars.len() as u32);
        let b = self.ty_ctx.new_bounds();
        let ghost before = vars@;
        vars.push(b);
        self.ty_vars.push(vars);
        proof {
            assert(bounds_view(vars@) =~= bounds_view(before).push((TyTree::Never, TyTree::Any)));
            assert(self.ty_vars() =~= old(self).ty_vars().drop_last().push(
                old(self).ty_vars().last().push((TyTree::Never, TyTree::Any)),
            ));
        }
        self.ty_ctx.mk_var(id)
    }

    /// The type a written type stands for, with no type parameters in scope.
    pub fn lower_ty(&mut self, ast: &ast::Ty) -> (r: Ty)
        requires
            ty_syms(*ast, old(self).sym_table()@.len()),
        ensures
            final(self).sym_table() == old(self).sym_table(),
            final(self).env() == old(self).env(),
            final(self).ty_vars() == old(self).ty_vars(),
            final(self).state() == (TcV {
                reports: old(self).state().reports + lower_reports(*ast, Seq::empty(), old(self).sym_table()@),
                ..old(self).state()
            }),
            r@ == lower_spec(*ast, Seq::empty(), old(self).sym_table()@),
    {
        let params: Vec<Ident> = Vec::new();
        self.lower_ty_with_params(ast, params.as_slice())
    }

    /// The type a written type stands for; a name that is neither a type
    /// parameter nor a built-in type is reported as an error.
    pub fn lower_ty_with_params(&mut self, ast: &ast::Ty, ty_params: &[Ident]) -> (r: Ty)
        requires
            ty_syms(*ast, old(self).sym_table()@.len()),
        ensures
            final(self).sym_table() == old(self).sym_table(),
            final(self).env() == old(self).env(),
            final(self).ty_vars() == old(self).ty_vars(),
            final(self).state() == (TcV {
                reports: old(self).state().reports + lower_reports(*ast, ty_params@, old(self).sym_table()@),
                ..old(self).state()
            }),
            r@ == lower_spec(*ast, ty_params@, old(self).sym_table()@),
        decreases ast,
    {
        let ghost old_reports = self.state().reports;
        proof {
            assert(old_reports + Seq::<DiagView>::empty() =~= old_reports);
        }
        match &ast.node {
            ast::TyKind::Infer => self.ty_ctx.mk_infer(),
            ast::TyKind::Var(ident) => {
                match position_of(ty_params, ident.sym) {
                    Some(index) => {
                        return self.ty_ctx.mk_param(ParamId(index as u32));
                    },
                    None => {},
                }
                let name = self.sym_table.get_str(ident.sym);
                match builtin(name) {
                    Some(ty) => ty,
                    None => {
                        let mut msg = String::new();
                        push_str(&mut msg, "cannot find type '");
                        push_str(&mut msg, name);
                        push_str(&mut msg, "' in scope");
                        let diagnostic = Diagnostic::error(msg.as_str(), ident.span);
                        proof {
                            assert(msg@ =~= unknown_type_text(self.sym_table@[ident.sym.index_of() as int]));
                            assert(crate::diagnostics::label_messages(diagnostic.secondary@) =~= Seq::<Seq<char>>::empty());
                            assert(crate::diagnostics::label_spans(diagnostic.secondary@) =~= Seq::<Span>::empty());
                        }
                        let err = self.report_err(diagnostic);
                        proof {
                            assert(old_reports.push(diag_view(diagnostic)) =~= old_reports + lower_reports(
                                *ast,
                                ty_params@,
                                self.sym_table@,
                            ));
                        }
                        self.ty_ctx.mk_error(err)
                    },
                }
            },
            ast::TyKind::Nullable(inner) => {
                let inner = self.lower_ty_with_params(inner, ty_params);
                self.ty_ctx.mk_nullable(inner)
            },
            ast::TyKind::Array(inner) => {
                let inner = self.lower_ty_with_params(inner, ty_params);
                self.ty_ctx.mk_array(inner)
            },
            ast::TyKind::Tuple(tys) => {
                let lowered = self.lower_tys(tys, ty_params);
                let r = self.ty_ctx.mk_tuple(lowered);
                proof {
                    assert(tys_view(lowered@) =~= lower_spec(
                        *ast,
                        ty_params@,
                        self.sym_table()@,
                    )->Tuple_0);
                }
                r
            },
        }
    }

    fn lower_tys(&mut self, tys: &Vec<ast::Ty>, ty_params: &[Ident]) -> (r: Vec<Ty>)
        requires
            forall|i: int| 0 <= i < tys@.len() ==> ty_syms(#[trigger] tys@[i], old(self).sym_table()@.len()),
        ensures
            final(self).sym_table() == old(self).sym_table(),
            final(self).env() == old(self).env(),
            final(self).ty_vars() == old(self).ty_vars(),
            final(self).state() == (TcV {
                reports: old(self).state().reports + lower_reports_list(*tys, tys@.len() as int, ty_params@, old(self).sym_table()@),
                ..old(self).state()
            }),
            r@.len() == tys@.len(),
            forall|i: int|
                0 <= i < tys@.len() ==> (#[trigger] r@[i])@ == lower_spec(
                    tys@[i],
                    ty_params@,
                    old(self).sym_table()@,
                ),
        decreases tys,
    {
        let mut r: Vec<Ty> = Vec::new();
        let mut i: usize = 0;
        proof {
            assert(old(self).state().reports + Seq::<DiagView>::empty() =~= old(self).state().reports);
        }
        while i < tys.len()
            invariant
                i <= tys.len(),
                self.sym_table() == old(self).sym_table(),
                self.env() == old(self).env(),
                self.ty_vars() == old(self).ty_vars(),
                self.state() == (TcV {
                    reports: old(self).state().reports + lower_reports_list(*tys, i as int, ty_params@, old(self).sym_table()@),
                    ..old(self).state()
                }),
                forall|i: int|
                    0 <= i < tys@.len() ==> ty_syms(#[trigger] tys@[i], old(self).sym_table()@.len()),
                r@.len() == i,
                forall|j: int|
                    0 <= j < i ==> (#[trigger] r@[j])@ == lower_spec(
                        tys@[j],
                        ty_params@,
                        old(self).sym_table()@,
                    ),
            decreases tys.len() - i,
        {
            let ghost before = self.state().reports;
            let t = self.lower_ty_with_params(&tys[i], ty_params);
            proof {
                assert(old(self).state().reports + lower_reports_list(*tys, i + 1, ty_params@, old(self).sym_table()@)
                    =~= before + lower_reports(tys@[i as int], ty_params@, old(self).sym_table()@));
            }
            r.push(t);
            i = i + 1;
        }
        r
    }
}

/// The position of the first type parameter named by `sym`.
fn position_of(params: &[Ident], sym: Symbol) -> (r: Option<usize>)
    ensures
        match (r, param_position(params@, sym)) {
            (Some(a), Some(b)) => a == b,
            (None, None) => true,
            _ => false,
        },
{
    let mut i: usize = 0;
    while i < params.len()
        invariant
            i <= params@.len(),
            forall|j: int| 0 <= j < i ==> params@[j].sym != sym,
        decreases params.len() - i,
    {
        if params[i].sym == sym {
            proof {
                lemma_param_position(params@, sym, i as int);
            }
            return Some(i);
        }
        i = i + 1;
    }
    proof {
        lemma_param_position_none(params@, sym);
    }
    None
}

proof fn lemma_param_position(params: Seq<Ident>, sym: Symbol, i: int)
    requires
        0 <= i < params.len(),
        params[i].sym == sym,
        forall|j: int| 0 <= j < i ==> params[j].sym != sym,
    ensures
        param_position(params, sym) == Some(i as nat),
    decreases i,
{
    if i > 0 {
        lemma_param_position(params.drop_first(), sym, i - 1);
    }
}

proof fn lemma_param_position_none(params: Seq<Ident>, sym: Symbol)
    requires
        forall|j: int| 0 <= j < params.len() ==> params[j].sym != sym,
    ensures
        param_position(params, sym) is None,
    decreases params.len(),
{
    if params.len() > 0 {
        lemma_param_position_none(params.drop_first(), sym);
    }
}

/// Whether two strings are equal.
fn str_is(s: &str, lit: &str) -> (r: bool)
    ensures
        r == (s@ == lit@),
{
    s.to_owned() == lit.to_owned()
}

/// The built-in type a name stands for.
fn builtin(name: &str) -> (r: Option<Ty>)
    ensures
        match (r, builtin_ty(name@)) {
            (Some(t), Some(b)) => t@ == b,
            (None, None) => true,
            _ => false,
        },
{
    let ctx = TyCtx::new();
    if str_is(name, "never") {
        Some(ctx.mk_never())
    } else if str_is(name, "null") {
        Some(ctx.mk_nullable(ctx.mk_never()))
    } else if str_is(name, "bool") {
        Some(ctx.mk_ty_from_kind(TyKind::Bool))
    } else if str_is(name, "uint8") {
        Some(ctx.mk_uint(UIntTy::UInt8))
    } else if str_is(name, "uint16") {
        Some(ctx.mk_uint(UIntTy::UInt16))
    } else if str_is(name, "uint32") {
        Some(ctx.mk_uint(UIntTy::UInt32))
    } else if str_is(name, "uint64") || str_is(name, "uint") {
        Some(ctx.mk_uint(UIntTy::UInt64))
    } else if str_is(name, "int8") {
        Some(ctx.mk_int(IntTy::Int8))
    } else if str_is(name, "int16") {
        Some(ctx.mk_int(IntTy::Int16))
    } else if str_is(name, "int32") {
        Some(ctx.mk_int(IntTy::Int32))
    } else if str_is(name, "int64") || str_is(name, "int") {
        Some(ctx.mk_int(IntTy::Int64))
    } else if str_is(name, "float32") {
        Some(ctx.mk_float(FloatTy::Float32))
    } else if str_is(name, "float64") || str_is(name, "float") {
        Some(ctx.mk_float(FloatTy::Float64))
    } else if str_is(name, "str") {
        Some(ctx.mk_ty_from_kind(TyKind::Str))
    } else {
        None
    }
}

/// The names of identifiers, looked up in a table.
pub open spec fn ident_names(ids: Seq<Ident>, names: Seq<Seq<char>>) -> Seq<Seq<char>> {
    ids.map_values(|id: Ident| names[id.sym.index_of() as int])
}

/// How a function's signature is shown: `fn name<T, U>(params) -> ret`,
/// without the type parameters when there are none and without the return
/// type when it is the unit type.
pub open spec fn func_text(f: FuncDef, names: Seq<Seq<char>>) -> Seq<char> {
    let tp = ident_names(f.ty_params(), names);
    "fn "@ + names[f.name().index_of() as int] + (if tp.len() == 0 {
        Seq::empty()
    } else {
        "<"@ + comma_join(tp) + ">"@
    }) + (if f.params().len() == 0 {
        "()"@
    } else {
        "("@ + comma_join(f.params().map_values(|t: Ty| ty_text(t@, tp))) + ")"@
    }) + (if f.ret()@ matches TyTree::Tuple(e) && e.len() == 0 {
        Seq::empty()
    } else {
        " -> "@ + ty_text(f.ret()@, tp)
    })
}

/// Every name of a signature is in the table.
pub open spec fn func_names_valid(f: FuncDef, n: nat) -> bool {
    &&& f.name().index_of() < n
    &&& forall|i: int| 0 <= i < f.ty_params().len() ==> (#[trigger] f.ty_params()[i]).sym.index_of() < n
}

proof fn lemma_comma_join_step(parts: Seq<Seq<char>>, i: int)
    requires
        0 <= i < parts.len(),
    ensures
        comma_join(parts.take(i + 1)) == if i == 0 {
            parts[0]
        } else {
            comma_join(parts.take(i)) + ", "@ + parts[i]
        },
{
    assert(parts.take(i + 1).drop_last() =~= parts.take(i));
}

/// Shows a function's signature.
pub fn format_func(func: &FuncDef, sym_table: &SymTable) -> (r: String)
    requires
        func_names_valid(*func, sym_table@.len()),
    ensures
        r@ == func_text(*func, sym_table@),
{
    let ghost names = sym_table@;
    let ghost tp = ident_names(func.ty_params@, names);
    let mut buf = String::new();
    push_str(&mut buf, "fn ");
    push_str(&mut buf, sym_table.get_str(func.name));
    let ghost after_name = buf@;
    if func.ty_params.len() > 0 {
        push_str(&mut buf, "<");
        let ghost start = buf@;
        let mut i: usize = 0;
        proof {
            assert(tp.take(0) =~= Seq::<Seq<char>>::empty());
        }
        while i < func.ty_params.len()
            invariant
                i <= func.ty_params.len(),
                func_names_valid(*func, names.len()),
                names == sym_table@,
                tp == ident_names(func.ty_params@, names),
                buf@ == start + comma_join(tp.take(i as int)),
            decreases func.ty_params.len() - i,
        {
            proof {
                lemma_comma_join_step(tp, i as int);
            }
            if i > 0 {
                push_str(&mut buf, ", ");
            }
            proof {
                assert(func.ty_params()[i as int] == func.ty_params@[i as int]);
            }
            push_str(&mut buf, sym_table.get_str(func.ty_params[i].sym));
            i = i + 1;
        }
        proof {
            assert(tp.take(i as int) =~= tp);
        }
        push_str(&mut buf, ">");
    }
    let ghost after_tp = buf@;
    let table = func.ty_params.as_slice();
    proof {
        assert forall|i: int| 0 <= i < table@.len() implies (#[trigger] table@[i]).sym.index_of()
            < names.len() by {
            assert(func.ty_params()[i] == table@[i]);
        }
    }
    if func.params.len() == 0 {
        push_str(&mut buf, "()");
    } else {
        push_str(&mut buf, "(");
        let ghost start = buf@;
        let ghost texts = func.params@.map_values(|t: Ty| ty_text(t@, tp));
        let mut i: usize = 0;
        proof {
            assert(texts.take(0) =~= Seq::<Seq<char>>::empty());
        }
        while i < func.params.len()
            invariant
                i <= func.params.len(),
                func_names_valid(*func, names.len()),
                names == sym_table@,
                table@ == func.ty_params@,
                forall|i: int| 0 <= i < table@.len() ==> (#[trigger] table@[i]).sym.index_of()
                    < names.len(),
                tp == ident_names(func.ty_params@, names),
                texts == func.params@.map_values(|t: Ty| ty_text(t@, tp)),
                buf@ == start + comma_join(texts.take(i as int)),
            decreases func.params.len() - i,
        {
            proof {
                lemma_comma_join_step(texts, i as int);
            }
            if i > 0 {
                push_str(&mut buf, ", ");
            }
            let shown = func.params[i].display_ctx(table, sym_table);
            proof {
                assert(shown.names() =~= tp);
            }
            let s = shown.to_string();
            push_str(&mut buf, s.as_str());
            i = i + 1;
        }
        proof {
            assert(texts.take(i as int) =~= texts);
        }
        push_str(&mut buf, ")");
    }
    if !func.ret.is_unit() {
        push_str(&mut buf, " -> ");
        let shown = func.ret.display_ctx(table, sym_table);
        proof {
            assert(shown.names() =~= tp);
        }
        let s = shown.to_string();
        push_str(&mut buf, s.as_str());
    }
    proof {
        assert(buf@ =~= func_text(*func, names));
    }
    buf
}

} // verus!
