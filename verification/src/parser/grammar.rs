//! What the parser produces from a text, stated over the stream of its
//! significant tokens: the parse functions below take the position of the
//! current token and the symbol table, and give the result (`None` for an
//! error), the position after it and the symbol table after it.
use vstd::prelude::*;

use crate::ast::{
    self, binop_text, BinOp, Block, Expr, ExprKind, Func, Ident, Lit, Mutability, Stmt, StmtKind, TyKind,
    UnaryOp,
};
use crate::escape::unescape_spec;
use crate::interner::Index;
use crate::parser::lexer::{
    lemma_skip_trivia, lemma_str_end, lemma_token_at_bounds, skip_trivia, token_at, token_name,
    TokenView,
};
use crate::text::{byte_len, lemma_byte_len_take};

verus! {

/// A written type, with symbols by their position in the table.
pub enum TyV {
    Infer,
    Var(nat),
    Nullable(Box<TyV>),
    Array(Box<TyV>),
    Tuple(Seq<TyV>),
}

pub enum LitV {
    Null,
    Bool(bool),
    Int(nat),
    Float(nat),
    Str(nat),
    Error,
}

/// An expression, without node ids and spans.
pub enum ExprV {
    Lit(LitV),
    Var(nat),
    Unary(UnaryOp, Box<ExprV>),
    Binary(BinOp, Box<ExprV>, Box<ExprV>),
    Call(Box<ExprV>, Seq<ExprV>),
    Grouped(Box<ExprV>),
    Array(Seq<ExprV>),
    Index(Box<ExprV>, Box<ExprV>),
    If(Box<ExprV>, Box<ExprV>, Option<Box<ExprV>>),
    Block(Seq<StmtV>, Option<Box<ExprV>>),
}

pub enum StmtV {
    Expr(Box<ExprV>),
    Let(nat, Option<TyV>, Box<ExprV>, Mutability),
    Assign(nat, Box<ExprV>),
}

pub struct FuncV {
    pub name: nat,
    pub params: Seq<(nat, TyV)>,
    pub ret: Option<TyV>,
    pub body: (Seq<StmtV>, Option<Box<ExprV>>),
}

pub open spec fn ty_v(t: ast::Ty) -> TyV
    decreases t,
{
    match t.node {
        TyKind::Infer => TyV::Infer,
        TyKind::Var(id) => TyV::Var(id.sym.index_of()),
        TyKind::Nullable(inner) => TyV::Nullable(Box::new(ty_v(*inner))),
        TyKind::Array(inner) => TyV::Array(Box::new(ty_v(*inner))),
        TyKind::Tuple(tys) => TyV::Tuple(
            Seq::new(
                tys@.len(),
                |i: int|
                    if 0 <= i < tys@.len() {
                        ty_v(tys@[i])
                    } else {
                        TyV::Infer
                    },
            ),
        ),
    }
}

pub open spec fn lit_v(l: Lit) -> LitV {
    match l {
        Lit::Null => LitV::Null,
        Lit::Bool(b) => LitV::Bool(b),
        Lit::Int(s) => LitV::Int(s.index_of()),
        Lit::Float(s) => LitV::Float(s.index_of()),
        Lit::Str(s) => LitV::Str(s.index_of()),
        Lit::Error(_) => LitV::Error,
    }
}

pub open spec fn expr_v(e: Expr) -> ExprV
    decreases e,
{
    match e.node {
        ExprKind::Lit(l) => ExprV::Lit(lit_v(l)),
        ExprKind::Var(id) => ExprV::Var(id.sym.index_of()),
        ExprKind::Unary(op, rhs, _) => ExprV::Unary(op, Box::new(expr_v(*rhs))),
        ExprKind::Binary(op, lhs, rhs, _) => ExprV::Binary(
            op,
            Box::new(expr_v(*lhs)),
            Box::new(expr_v(*rhs)),
        ),
        ExprKind::Call(f, args, _) => ExprV::Call(Box::new(expr_v(*f)), exprs_v(args)),
        ExprKind::Grouped(inner) => ExprV::Grouped(Box::new(expr_v(*inner))),
        ExprKind::Array(elems) => ExprV::Array(exprs_v(elems)),
        ExprKind::Index(a, i) => ExprV::Index(Box::new(expr_v(*a)), Box::new(expr_v(*i))),
        ExprKind::If { cond, then, els } => ExprV::If(
            Box::new(expr_v(*cond)),
            Box::new(expr_v(*then)),
            match els {
                Some(x) => Some(Box::new(expr_v(*x))),
                None => None,
            },
        ),
        ExprKind::Block(b) => ExprV::Block(stmts_v(b.stmts), tail_v(b.tail)),
    }
}

pub open spec fn exprs_v(es: Vec<Expr>) -> Seq<ExprV>
    decreases es,
{
    Seq::new(
        es@.len(),
        |i: int|
            if 0 <= i < es@.len() {
                expr_v(es@[i])
            } else {
                ExprV::Lit(LitV::Null)
            },
    )
}

pub open spec fn tail_v(t: Option<Box<Expr>>) -> Option<Box<ExprV>>
    decreases t,
{
    match t {
        Some(x) => Some(Box::new(expr_v(*x))),
        None => None,
    }
}

pub open spec fn stmts_v(ss: Vec<Stmt>) -> Seq<StmtV>
    decreases ss,
{
    Seq::new(
        ss@.len(),
        |i: int|
            if 0 <= i < ss@.len() {
                stmt_v(ss@[i])
            } else {
                StmtV::Expr(Box::new(ExprV::Lit(LitV::Null)))
            },
    )
}

pub open spec fn stmt_v(s: Stmt) -> StmtV
    decreases s,
{
    match s.node {
        StmtKind::Expr(e) => StmtV::Expr(Box::new(expr_v(*e))),
        StmtKind::Let(name, ty, value, m) => StmtV::Let(
            name.sym.index_of(),
            match ty {
                Some(t) => Some(ty_v(*t)),
                None => None,
            },
            Box::new(expr_v(*value)),
            m,
        ),
        StmtKind::Assign(lhs, rhs) => StmtV::Assign(lhs.sym.index_of(), Box::new(expr_v(*rhs))),
    }
}

pub open spec fn block_v(b: Block) -> (Seq<StmtV>, Option<Box<ExprV>>) {
    (stmts_v(b.stmts), tail_v(b.tail))
}

pub open spec fn func_v(f: Func) -> FuncV {
    FuncV {
        name: f.name.sym.index_of(),
        params: f.params@.map_values(|p: (Ident, ast::Ty)| (p.0.sym.index_of(), ty_v(p.1))),
        ret: match f.ret {
            Some(t) => Some(ty_v(t)),
            None => None,
        },
        body: block_v(f.body),
    }
}

// ---------------------------------------------------------------------------
// The token stream
// ---------------------------------------------------------------------------

/// The next significant token from character `q`, skipping blanks, comments
/// and new lines: the token and the position after it.
pub open spec fn next_sig(s: Seq<char>, q: int) -> Option<(TokenView, int)>
    decreases s.len() - q,
{
    if q < 0 || q > s.len() {
        None
    } else {
        let j = skip_trivia(s, q);
        if j < q || j >= s.len() {
            None
        } else {
            let (t, e) = token_at(s, j);
            if t is Newline {
                if q < e <= s.len() {
                    next_sig(s, e)
                } else {
                    None
                }
            } else {
                Some((t, e))
            }
        }
    }
}

/// The current token when the previous one ended at `q`.
pub open spec fn peek_s(s: Seq<char>, q: int) -> TokenView {
    match next_sig(s, q) {
        Some((t, _)) => t,
        None => TokenView::Eof,
    }
}

/// Where the previous token ends after the current one is consumed.
pub open spec fn adv(s: Seq<char>, q: int) -> int {
    match next_sig(s, q) {
        Some((_, e)) => e,
        None => q,
    }
}

/// Where the lexer stands while the current token is the one after `q`.
pub open spec fn after(s: Seq<char>, q: int) -> int {
    match next_sig(s, q) {
        Some((_, e)) => e,
        None => s.len() as int,
    }
}

pub proof fn lemma_next_sig(s: Seq<char>, q: int)
    requires
        0 <= q <= s.len(),
    ensures
        next_sig(s, q) matches Some((t, e)) ==> q < e <= s.len() && !(t is Newline) && !(t is Eof),
        q <= adv(s, q) <= s.len(),
        next_sig(s, q) is Some <==> adv(s, q) > q,
    decreases s.len() - q,
{
    lemma_skip_trivia(s, q);
    let j = skip_trivia(s, q);
    if j < s.len() {
        lemma_token_at_bounds(s, j);
        let (t, e) = token_at(s, j);
        if t is Newline {
            lemma_next_sig(s, e);
        } else {
            lemma_token_not_eof(s, j);
        }
    }
}

/// A string literal token has its two quotes, and is no longer in bytes
/// than the text it was read from.
pub proof fn lemma_peek_str(s: Seq<char>, q: int)
    requires
        0 <= q <= s.len(),
        peek_s(s, q) is Str,
    ensures
        peek_s(s, q)->Str_0.len() >= 2,
        byte_len(peek_s(s, q)->Str_0) <= byte_len(s),
    decreases s.len() - q,
{
    lemma_skip_trivia(s, q);
    let j = skip_trivia(s, q);
    if j < s.len() {
        lemma_token_at_bounds(s, j);
        let (t, e) = token_at(s, j);
        if t is Newline {
            lemma_peek_str(s, e);
        } else {
            lemma_str_end(s, j + 1);
            let w = s.subrange(j, e);
            assert(t == TokenView::Str(w));
            lemma_byte_len_take(s, e);
            lemma_byte_len_take(s.take(e), j);
            assert(s.take(e).skip(j) =~= w);
        }
    }
}

proof fn lemma_token_not_eof(s: Seq<char>, j: int)
    requires
        0 <= j < s.len(),
    ensures
        !(token_at(s, j).0 is Eof),
{
}

/// What parsing has produced besides syntax: the symbol table, and how many
/// diagnostics have been reported.
pub struct PState {
    pub syms: Seq<Seq<char>>,
    pub errs: nat,
}

/// One more diagnostic reported.
pub open spec fn bump(t: PState) -> PState {
    PState { syms: t.syms, errs: t.errs + 1 }
}

/// The symbol of `w`, and the state after interning it.
pub open spec fn intern_p(t: PState, w: Seq<char>) -> (nat, PState) {
    (intern_s(t.syms, w).0, PState { syms: intern_s(t.syms, w).1, errs: t.errs })
}

/// A step of parsing: the result (`None` for an error), the position of the
/// end of the last consumed token, and the symbol table.
pub struct Step<T> {
    pub res: Option<T>,
    pub q: int,
    pub tab: PState,
}

pub open spec fn fail<T>(q: int, tab: PState) -> Step<T> {
    Step { res: None, q, tab }
}

pub open spec fn done<T>(v: T, q: int, tab: PState) -> Step<T> {
    Step { res: Some(v), q, tab }
}

/// The symbol of `w` in `tab`, and the table after interning it.
pub open spec fn intern_s(tab: Seq<Seq<char>>, w: Seq<char>) -> (nat, Seq<Seq<char>>) {
    if tab.contains(w) {
        (tab.index_of(w) as nat, tab)
    } else {
        (tab.len(), tab.push(w))
    }
}

/// Interning a string a second time gives the symbol it got the first
/// time, and leaves the table as it was.
pub proof fn lemma_intern_twice(tab: Seq<Seq<char>>, w: Seq<char>)
    requires
        forall|i: int, j: int| 0 <= i < j < tab.len() ==> tab[i] != tab[j],
    ensures
        intern_s(intern_s(tab, w).1, w) == intern_s(tab, w),
{
    let (sym, tab1) = intern_s(tab, w);
    if !tab.contains(w) {
        assert(tab1[tab.len() as int] == w);
        assert(tab1.contains(w));
        let k = tab1.index_of(w);
        assert(0 <= k < tab1.len() && tab1[k] == w);
        if k < tab.len() {
            assert(tab[k] == w);
        }
    }
}

/// Consumes a token, which must be `tok`.
pub open spec fn expect_s(s: Seq<char>, q: int, tok: TokenView) -> (bool, int) {
    (peek_s(s, q) == tok, adv(s, q))
}

pub open spec fn parse_ident_s(s: Seq<char>, q: int, tab: PState) -> Step<nat> {
    let q1 = adv(s, q);
    match peek_s(s, q) {
        TokenView::Ident(raw) => {
            let (sym, tab1) = intern_p(tab, raw);
            done(sym, q1, tab1)
        },
        _ => fail(q1, bump(tab)),
    }
}

/// A written type, and a `?` after it.
pub open spec fn parse_ty_s(s: Seq<char>, q: int, tab: PState) -> Step<TyV>
    decreases s.len() - q, 1nat,
{
    let base = parse_ty_base_s(s, q, tab);
    match base.res {
        Some(t) => if peek_s(s, base.q) == TokenView::Question {
            done(TyV::Nullable(Box::new(t)), adv(s, base.q), base.tab)
        } else {
            base
        },
        None => base,
    }
}

/// A written type without a `?` after it: a name, `[T]`, or a
/// parenthesised list of types.
pub open spec fn parse_ty_base_s(s: Seq<char>, q: int, tab: PState) -> Step<TyV>
    decreases s.len() - q, 0nat,
{
    if !(0 <= q <= s.len()) {
        fail(q, tab)
    } else {
        proof {
            lemma_next_sig(s, q);
        }
        match peek_s(s, q) {
            TokenView::Ident(_) => {
                let st = parse_ident_s(s, q, tab);
                match st.res {
                    Some(sym) => done(TyV::Var(sym), st.q, st.tab),
                    None => fail(st.q, st.tab),
                }
            },
            TokenView::LeftBracket => {
                let inner = parse_ty_s(s, adv(s, q), tab);
                match inner.res {
                    Some(t) => {
                        let (ok, q2) = expect_s(s, inner.q, TokenView::RightBracket);
                        if ok {
                            done(TyV::Array(Box::new(t)), q2, inner.tab)
                        } else {
                            fail(q2, bump(inner.tab))
                        }
                    },
                    None => fail(inner.q, inner.tab),
                }
            },
            TokenView::LeftParen => {
                let el = ty_elems_s(s, adv(s, q), tab, Seq::empty(), false);
                match el.res {
                    Some((elems, trailing)) => {
                        let (ok, q2) = expect_s(s, el.q, TokenView::RightParen);
                        if !ok {
                            fail(q2, bump(el.tab))
                        } else if elems.len() == 1 && !trailing {
                            done(elems[0], q2, el.tab)
                        } else {
                            done(TyV::Tuple(elems), q2, el.tab)
                        }
                    },
                    None => fail(el.q, el.tab),
                }
            },
            _ => fail(q, bump(tab)),
        }
    }
}

/// The elements of a parenthesised type list, up to the `)`, and whether the
/// last one was followed by a comma.
pub open spec fn ty_elems_s(
    s: Seq<char>,
    q: int,
    tab: PState,
    acc: Seq<TyV>,
    trailing: bool,
) -> Step<(Seq<TyV>, bool)>
    decreases s.len() - q, 2nat,
{
    if !(0 <= q <= s.len()) {
        fail(q, tab)
    } else if peek_s(s, q) == TokenView::RightParen {
        done((acc, trailing), q, tab)
    } else {
        let st = parse_ty_s(s, q, tab);
        match st.res {
            Some(t) => {
                let comma = peek_s(s, st.q) == TokenView::Comma;
                let q2 = if comma {
                    adv(s, st.q)
                } else {
                    st.q
                };
                if q < q2 <= s.len() {
                    ty_elems_s(s, q2, st.tab, acc.push(t), comma)
                } else {
                    fail(q2, st.tab)
                }
            },
            None => fail(st.q, st.tab),
        }
    }
}

/// The precedence at which a token continues an expression, if it does.
pub open spec fn infix_prec(t: TokenView) -> Option<nat> {
    match t {
        TokenView::Plus | TokenView::Minus => Some(3),
        TokenView::Asterisk | TokenView::Solidus => Some(4),
        TokenView::EqEq | TokenView::BangEq => Some(1),
        TokenView::Lt | TokenView::LtEq | TokenView::Gt | TokenView::GtEq => Some(2),
        TokenView::LeftParen | TokenView::LeftBracket => Some(6),
        _ => None,
    }
}

/// The binary operator a token stands for, if any.
pub open spec fn binop_of(t: TokenView) -> Option<BinOp> {
    match t {
        TokenView::Plus => Some(BinOp::Add),
        TokenView::Minus => Some(BinOp::Sub),
        TokenView::Asterisk => Some(BinOp::Mul),
        TokenView::Solidus => Some(BinOp::Div),
        TokenView::EqEq => Some(BinOp::Eq),
        TokenView::BangEq => Some(BinOp::NotEq),
        TokenView::Lt => Some(BinOp::Lt),
        TokenView::LtEq => Some(BinOp::LtEq),
        TokenView::Gt => Some(BinOp::Gt),
        TokenView::GtEq => Some(BinOp::GtEq),
        _ => None,
    }
}

/// Whether the text of a string literal token between its quotes can be
/// unescaped.
pub open spec fn str_lit_ok(raw: Seq<char>) -> bool {
    unescape_spec(raw.subrange(1, raw.len() - 1)) is Ok
}

/// Each operator token stands for the operator spelled as it is: its name in
/// messages is that operator's text in quotes. So distinct tokens stand for
/// distinct operators, and every operator has a token.
pub proof fn lemma_binop_tokens(t: TokenView, u: TokenView, op: BinOp)
    ensures
        binop_of(t) matches Some(o) ==> token_name(t) == "'"@ + binop_text(o) + "'"@,
        binop_of(t) is Some && binop_of(t) == binop_of(u) ==> t == u,
        exists|w: TokenView| binop_of(w) == Some(op),
{
    reveal_strlit("'");
    match t {
        TokenView::Plus => {
            reveal_strlit("'+'");
            reveal_strlit("+");
            assert(token_name(t) =~= "'"@ + binop_text(BinOp::Add) + "'"@);
        },
        TokenView::Minus => {
            reveal_strlit("'-'");
            reveal_strlit("-");
            assert(token_name(t) =~= "'"@ + binop_text(BinOp::Sub) + "'"@);
        },
        TokenView::Asterisk => {
            reveal_strlit("'*'");
            reveal_strlit("*");
            assert(token_name(t) =~= "'"@ + binop_text(BinOp::Mul) + "'"@);
        },
        TokenView::Solidus => {
            reveal_strlit("'/'");
            reveal_strlit("/");
            assert(token_name(t) =~= "'"@ + binop_text(BinOp::Div) + "'"@);
        },
        TokenView::EqEq => {
            reveal_strlit("'=='");
            reveal_strlit("==");
            assert(token_name(t) =~= "'"@ + binop_text(BinOp::Eq) + "'"@);
        },
        TokenView::BangEq => {
            reveal_strlit("'!='");
            reveal_strlit("!=");
            assert(token_name(t) =~= "'"@ + binop_text(BinOp::NotEq) + "'"@);
        },
        TokenView::Lt => {
            reveal_strlit("'<'");
            reveal_strlit("<");
            assert(token_name(t) =~= "'"@ + binop_text(BinOp::Lt) + "'"@);
        },
        TokenView::LtEq => {
            reveal_strlit("'<='");
            reveal_strlit("<=");
            assert(token_name(t) =~= "'"@ + binop_text(BinOp::LtEq) + "'"@);
        },
        TokenView::Gt => {
            reveal_strlit("'>'");
            reveal_strlit(">");
            assert(token_name(t) =~= "'"@ + binop_text(BinOp::Gt) + "'"@);
        },
        TokenView::GtEq => {
            reveal_strlit("'>='");
            reveal_strlit(">=");
            assert(token_name(t) =~= "'"@ + binop_text(BinOp::GtEq) + "'"@);
        },
        _ => {},
    }
    match op {
        BinOp::Add => assert(binop_of(TokenView::Plus) == Some(op)),
        BinOp::Sub => assert(binop_of(TokenView::Minus) == Some(op)),
        BinOp::Mul => assert(binop_of(TokenView::Asterisk) == Some(op)),
        BinOp::Div => assert(binop_of(TokenView::Solidus) == Some(op)),
        BinOp::Eq => assert(binop_of(TokenView::EqEq) == Some(op)),
        BinOp::NotEq => assert(binop_of(TokenView::BangEq) == Some(op)),
        BinOp::Lt => assert(binop_of(TokenView::Lt) == Some(op)),
        BinOp::LtEq => assert(binop_of(TokenView::LtEq) == Some(op)),
        BinOp::Gt => assert(binop_of(TokenView::Gt) == Some(op)),
        BinOp::GtEq => assert(binop_of(TokenView::GtEq) == Some(op)),
    }
}

/// Operators bind as usual: `*` and `/` tighter than `+` and `-`, those
/// tighter than the orderings, and those tighter than `==` and `!=`; calls
/// and indexing tighter than any operator. Only these tokens continue an
/// expression, and each operator token continues one.
pub proof fn lemma_precedence_order(t: TokenView)
    ensures
        infix_prec(TokenView::Asterisk) == infix_prec(TokenView::Solidus),
        infix_prec(TokenView::Plus) == infix_prec(TokenView::Minus),
        infix_prec(TokenView::Lt) == infix_prec(TokenView::LtEq),
        infix_prec(TokenView::Lt) == infix_prec(TokenView::Gt),
        infix_prec(TokenView::Lt) == infix_prec(TokenView::GtEq),
        infix_prec(TokenView::EqEq) == infix_prec(TokenView::BangEq),
        infix_prec(TokenView::LeftParen) == infix_prec(TokenView::LeftBracket),
        infix_prec(TokenView::EqEq)->0 < infix_prec(TokenView::Lt)->0 < infix_prec(TokenView::Plus)->0
            < infix_prec(TokenView::Asterisk)->0 < infix_prec(TokenView::LeftParen)->0,
        infix_prec(t) is Some <==> (binop_of(t) is Some || t == TokenView::LeftParen || t
            == TokenView::LeftBracket),
{
}

/// The text of a string literal token between its quotes, unescaped; `err`
/// where it cannot be unescaped.
pub open spec fn str_lit_text(raw: Seq<char>) -> Seq<char> {
    match unescape_spec(raw.subrange(1, raw.len() - 1)) {
        Ok(v) => v,
        Err(_) => "err"@,
    }
}

/// An expression: an operand, then binary operators, calls and indexing of
/// precedence at least `min`.
pub open spec fn parse_precedence_s(s: Seq<char>, q: int, tab: PState, min: nat) -> Step<
    ExprV,
>
    decreases s.len() - q, 4nat,
{
    if !(0 <= q <= s.len()) {
        fail(q, tab)
    } else {
        let st = parse_prefix_s(s, q, tab);
        match st.res {
            Some(e) => if q < st.q <= s.len() {
                prec_loop_s(s, st.q, st.tab, e, min)
            } else {
                fail(st.q, st.tab)
            },
            None => fail(st.q, st.tab),
        }
    }
}

pub open spec fn parse_expr_s(s: Seq<char>, q: int, tab: PState) -> Step<ExprV>
    decreases s.len() - q, 5nat,
{
    parse_precedence_s(s, q, tab, 0)
}

/// Extends `expr` with the operators of precedence at least `min` that
/// follow it.
pub open spec fn prec_loop_s(
    s: Seq<char>,
    q: int,
    tab: PState,
    expr: ExprV,
    min: nat,
) -> Step<ExprV>
    decreases s.len() - q, 3nat,
{
    if !(0 <= q <= s.len()) {
        fail(q, tab)
    } else {
        proof {
            lemma_next_sig(s, q);
        }
        let t = peek_s(s, q);
        match infix_prec(t) {
            None => done(expr, q, tab),
            Some(p) => if p < min {
                done(expr, q, tab)
            } else {
                let st = infix_step_s(s, q, tab, expr);
                match st.res {
                    Some(e2) => if q < st.q <= s.len() {
                        prec_loop_s(s, st.q, st.tab, e2, min)
                    } else {
                        fail(st.q, st.tab)
                    },
                    None => st,
                }
            },
        }
    }
}

/// One operator after `expr`, at the current token: a binary operator and
/// its right operand, an argument list, or an index.
pub open spec fn infix_step_s(s: Seq<char>, q: int, tab: PState, expr: ExprV) -> Step<
    ExprV,
>
    decreases s.len() - q, 2nat,
{
    if !(0 <= q <= s.len()) {
        fail(q, tab)
    } else {
        proof {
            lemma_next_sig(s, q);
        }
        let t = peek_s(s, q);
        match binop_of(t) {
            Some(op) => {
                let p = match infix_prec(t) {
                    Some(p) => p,
                    None => 0,
                };
                let rhs = parse_precedence_s(s, adv(s, q), tab, p);
                match rhs.res {
                    Some(r) => done(ExprV::Binary(op, Box::new(expr), Box::new(r)), rhs.q, rhs.tab),
                    None => fail(rhs.q, rhs.tab),
                }
            },
            None => if t == TokenView::LeftParen {
                let args = parse_list_s(s, q, tab, TokenView::LeftParen, TokenView::RightParen);
                match args.res {
                    Some(a) => done(ExprV::Call(Box::new(expr), a), args.q, args.tab),
                    None => fail(args.q, args.tab),
                }
            } else if t == TokenView::LeftBracket {
                let idx = parse_expr_s(s, adv(s, q), tab);
                match idx.res {
                    Some(i) => {
                        let (ok, q2) = expect_s(s, idx.q, TokenView::RightBracket);
                        if ok {
                            done(ExprV::Index(Box::new(expr), Box::new(i)), q2, idx.tab)
                        } else {
                            fail(q2, bump(idx.tab))
                        }
                    },
                    None => fail(idx.q, idx.tab),
                }
            } else {
                fail(q, tab)
            },
        }
    }
}

/// A list of expressions between `open` and `close`, separated by commas.
pub open spec fn parse_list_s(
    s: Seq<char>,
    q: int,
    tab: PState,
    open: TokenView,
    close: TokenView,
) -> Step<Seq<ExprV>>
    decreases s.len() - q, 1nat,
{
    if !(0 <= q <= s.len()) {
        fail(q, tab)
    } else {
        proof {
            lemma_next_sig(s, q);
        }
        let (ok, q1) = expect_s(s, q, open);
        if ok && q < q1 <= s.len() {
            list_loop_s(s, q1, tab, Seq::empty(), close)
        } else {
            fail(q1, if ok { tab } else { bump(tab) })
        }
    }
}

pub open spec fn list_loop_s(
    s: Seq<char>,
    q: int,
    tab: PState,
    acc: Seq<ExprV>,
    close: TokenView,
) -> Step<Seq<ExprV>>
    decreases s.len() - q, 6nat,
{
    if !(0 <= q <= s.len()) {
        fail(q, tab)
    } else if peek_s(s, q) == close {
        done(acc, adv(s, q), tab)
    } else {
        let st = parse_expr_s(s, q, tab);
        match st.res {
            Some(e) => {
                let t = peek_s(s, st.q);
                let q2 = adv(s, st.q);
                if t == TokenView::Comma {
                    if q < q2 <= s.len() {
                        list_loop_s(s, q2, st.tab, acc.push(e), close)
                    } else {
                        fail(q2, st.tab)
                    }
                } else if t == close {
                    done(acc.push(e), q2, st.tab)
                } else {
                    fail(q2, bump(st.tab))
                }
            },
            None => fail(st.q, st.tab),
        }
    }
}

/// An operand: a literal, a name, a prefix operator, a group, an array,
/// a conditional or a block.
pub open spec fn parse_prefix_s(s: Seq<char>, q: int, tab: PState) -> Step<ExprV>
    decreases s.len() - q, 3nat,
{
    if !(0 <= q <= s.len()) {
        fail(q, tab)
    } else {
        proof {
            lemma_next_sig(s, q);
        }
        let q1 = adv(s, q);
        match peek_s(s, q) {
            TokenView::Null => done(ExprV::Lit(LitV::Null), q1, tab),
            TokenView::False => done(ExprV::Lit(LitV::Bool(false)), q1, tab),
            TokenView::True => done(ExprV::Lit(LitV::Bool(true)), q1, tab),
            TokenView::Number(raw) => {
                let (sym, tab1) = intern_p(tab, raw);
                done(
                    ExprV::Lit(
                        if raw.contains('.') {
                            LitV::Float(sym)
                        } else {
                            LitV::Int(sym)
                        },
                    ),
                    q1,
                    tab1,
                )
            },
            TokenView::Str(raw) => {
                let (sym, tab1) = intern_p(if str_lit_ok(raw) { tab } else { bump(tab) }, str_lit_text(raw));
                done(ExprV::Lit(LitV::Str(sym)), q1, tab1)
            },
            TokenView::Ident(_) => {
                let st = parse_ident_s(s, q, tab);
                match st.res {
                    Some(sym) => done(ExprV::Var(sym), st.q, st.tab),
                    None => fail(st.q, st.tab),
                }
            },
            TokenView::Bang => {
                let st = parse_precedence_s(s, q1, tab, 5);
                match st.res {
                    Some(e) => done(ExprV::Unary(UnaryOp::Not, Box::new(e)), st.q, st.tab),
                    None => fail(st.q, st.tab),
                }
            },
            TokenView::Minus => {
                let st = parse_precedence_s(s, q1, tab, 5);
                match st.res {
                    Some(e) => done(ExprV::Unary(UnaryOp::Negate, Box::new(e)), st.q, st.tab),
                    None => fail(st.q, st.tab),
                }
            },
            TokenView::LeftParen => {
                let st = parse_expr_s(s, q1, tab);
                match st.res {
                    Some(e) => {
                        let (ok, q2) = expect_s(s, st.q, TokenView::RightParen);
                        if ok {
                            done(ExprV::Grouped(Box::new(e)), q2, st.tab)
                        } else {
                            fail(q2, bump(st.tab))
                        }
                    },
                    None => fail(st.q, st.tab),
                }
            },
            TokenView::LeftBracket => {
                let st = parse_list_s(s, q, tab, TokenView::LeftBracket, TokenView::RightBracket);
                match st.res {
                    Some(es) => done(ExprV::Array(es), st.q, st.tab),
                    None => fail(st.q, st.tab),
                }
            },
            TokenView::If => {
                let cond = parse_expr_s(s, q1, tab);
                match cond.res {
                    Some(c) => if q < cond.q <= s.len() {
                        let then = parse_block_s(s, cond.q, cond.tab);
                        match then.res {
                            Some(tb) => if q < then.q <= s.len() && peek_s(s, then.q)
                                == TokenView::Else {
                                proof {
                                    lemma_next_sig(s, then.q);
                                }
                                let els = parse_block_s(s, adv(s, then.q), then.tab);
                                match els.res {
                                    Some(eb) => done(
                                        ExprV::If(
                                            Box::new(c),
                                            Box::new(ExprV::Block(tb.0, tb.1)),
                                            Some(Box::new(ExprV::Block(eb.0, eb.1))),
                                        ),
                                        els.q,
                                        els.tab,
                                    ),
                                    None => fail(els.q, els.tab),
                                }
                            } else {
                                done(
                                    ExprV::If(
                                        Box::new(c),
                                        Box::new(ExprV::Block(tb.0, tb.1)),
                                        None,
                                    ),
                                    then.q,
                                    then.tab,
                                )
                            },
                            None => fail(then.q, then.tab),
                        }
                    } else {
                        fail(cond.q, cond.tab)
                    },
                    None => fail(cond.q, cond.tab),
                }
            },
            TokenView::LeftBrace => {
                let st = parse_block_s(s, q, tab);
                match st.res {
                    Some(b) => done(ExprV::Block(b.0, b.1), st.q, st.tab),
                    None => fail(st.q, st.tab),
                }
            },
            _ => fail(q, bump(tab)),
        }
    }
}

/// A block: `{`, statements, an optional tail expression, `}`.
pub open spec fn parse_block_s(s: Seq<char>, q: int, tab: PState) -> Step<
    (Seq<StmtV>, Option<Box<ExprV>>),
>
    decreases s.len() - q, 1nat,
{
    if !(0 <= q <= s.len()) {
        fail(q, tab)
    } else {
        proof {
            lemma_next_sig(s, q);
        }
        let (ok, q1) = expect_s(s, q, TokenView::LeftBrace);
        if ok && q < q1 <= s.len() {
            let st = block_loop_s(s, q1, tab, Seq::empty());
            match st.res {
                Some(b) => done(
                    b,
                    adv(s, st.q),
                    if peek_s(s, st.q) == TokenView::RightBrace {
                        st.tab
                    } else {
                        bump(st.tab)
                    },
                ),
                None => fail(st.q, st.tab),
            }
        } else {
            fail(q1, if ok { tab } else { bump(tab) })
        }
    }
}

/// A statement, or the tail expression of a block.
pub enum StmtOrTailV {
    Stmt(StmtV),
    Tail(ExprV),
}

/// The statements of a block from `q` on, up to its `}` or the end of the
/// text; a statement in error is skipped.
pub open spec fn block_loop_s(s: Seq<char>, q: int, tab: PState, acc: Seq<StmtV>) -> Step<
    (Seq<StmtV>, Option<Box<ExprV>>),
>
    decreases s.len() - q, 8nat,
{
    if !(0 <= q <= s.len()) {
        fail(q, tab)
    } else if peek_s(s, q) == TokenView::RightBrace || peek_s(s, q) == TokenView::Eof {
        done((acc, None), q, tab)
    } else {
        let st = parse_stmt_s(s, q, tab);
        match st.res {
            Some(StmtOrTailV::Stmt(x)) => if q < st.q <= s.len() {
                block_loop_s(s, st.q, st.tab, acc.push(x))
            } else {
                fail(st.q, st.tab)
            },
            Some(StmtOrTailV::Tail(e)) => done((acc, Some(Box::new(e))), st.q, st.tab),
            None => {
                let q2 = sync_block_s(s, st.q, 0);
                if q < q2 <= s.len() {
                    block_loop_s(s, q2, st.tab, acc)
                } else {
                    fail(q2, st.tab)
                }
            },
        }
    }
}

/// Skips to the end of the statement in error: past the next `;` or to the
/// `}` of the block, whichever comes first outside nested blocks.
pub open spec fn sync_block_s(s: Seq<char>, q: int, level: int) -> int
    decreases s.len() - q,
{
    if !(0 <= q <= s.len()) {
        q
    } else if peek_s(s, q) == TokenView::RightBrace && level == 0 {
        q
    } else {
        proof {
            lemma_next_sig(s, q);
        }
        let t = peek_s(s, q);
        let q1 = adv(s, q);
        if (t == TokenView::Semi && level == 0) || t == TokenView::Eof {
            q1
        } else if q < q1 {
            sync_block_s(
                s,
                q1,
                if t == TokenView::LeftBrace {
                    level + 1
                } else if t == TokenView::RightBrace {
                    level - 1
                } else {
                    level
                },
            )
        } else {
            q1
        }
    }
}

/// A statement: `let`/`var` bindings, assignments, expression statements,
/// or the tail expression of a block.
pub open spec fn parse_stmt_s(s: Seq<char>, q: int, tab: PState) -> Step<StmtOrTailV>
    decreases s.len() - q, 7nat,
{
    if !(0 <= q <= s.len()) {
        fail(q, tab)
    } else {
        proof {
            lemma_next_sig(s, q);
        }
        let t = peek_s(s, q);
        if t == TokenView::Let || t == TokenView::Var {
            let m = if t == TokenView::Let {
                Mutability::Not
            } else {
                Mutability::Mut
            };
            let name = parse_ident_s(s, adv(s, q), tab);
            match name.res {
                Some(n) => {
                    let ty: Step<Option<TyV>> = if peek_s(s, name.q) == TokenView::Colon {
                        let st = parse_ty_s(s, adv(s, name.q), name.tab);
                        match st.res {
                            Some(x) => done(Some(x), st.q, st.tab),
                            None => fail(st.q, st.tab),
                        }
                    } else {
                        done(None, name.q, name.tab)
                    };
                    match ty.res {
                        Some(ty_opt) => {
                            let (ok, q3) = expect_s(s, ty.q, TokenView::Eq);
                            if !ok {
                                fail(q3, bump(ty.tab))
                            } else if q < q3 <= s.len() {
                                let value = parse_expr_s(s, q3, ty.tab);
                                match value.res {
                                    Some(v) => {
                                        let (ok2, q4) = expect_s(s, value.q, TokenView::Semi);
                                        if ok2 {
                                            done(
                                                StmtOrTailV::Stmt(
                                                    StmtV::Let(n, ty_opt, Box::new(v), m),
                                                ),
                                                q4,
                                                value.tab,
                                            )
                                        } else {
                                            fail(q4, bump(value.tab))
                                        }
                                    },
                                    None => fail(value.q, value.tab),
                                }
                            } else {
                                fail(q3, ty.tab)
                            }
                        },
                        None => fail(ty.q, ty.tab),
                    }
                },
                None => fail(name.q, name.tab),
            }
        } else {
            let has_block = t == TokenView::If;
            let e = parse_expr_s(s, q, tab);
            match e.res {
                Some(x) => {
                    let t2 = peek_s(s, e.q);
                    if t2 == TokenView::Eq {
                        let q1 = adv(s, e.q);
                        match x {
                            ExprV::Var(lhs) => if q < q1 <= s.len() {
                                let rhs = parse_expr_s(s, q1, e.tab);
                                match rhs.res {
                                    Some(r) => {
                                        let (ok, q2) = expect_s(s, rhs.q, TokenView::Semi);
                                        if ok {
                                            done(
                                                StmtOrTailV::Stmt(StmtV::Assign(lhs, Box::new(r))),
                                                q2,
                                                rhs.tab,
                                            )
                                        } else {
                                            fail(q2, bump(rhs.tab))
                                        }
                                    },
                                    None => fail(rhs.q, rhs.tab),
                                }
                            } else {
                                fail(q1, e.tab)
                            },
                            _ => fail(q1, bump(e.tab)),
                        }
                    } else if t2 == TokenView::Semi {
                        done(StmtOrTailV::Stmt(StmtV::Expr(Box::new(x))), adv(s, e.q), e.tab)
                    } else if t2 == TokenView::RightBrace {
                        done(StmtOrTailV::Tail(x), e.q, e.tab)
                    } else if has_block {
                        done(StmtOrTailV::Stmt(StmtV::Expr(Box::new(x))), e.q, e.tab)
                    } else {
                        fail(e.q, bump(e.tab))
                    }
                },
                None => fail(e.q, e.tab),
            }
        }
    }
}

/// The parameters of a function from just after its `(`: `name: type`
/// pairs separated by commas, up to the `)`.
pub open spec fn params_loop_s(
    s: Seq<char>,
    q: int,
    tab: PState,
    acc: Seq<(nat, TyV)>,
) -> Step<Seq<(nat, TyV)>>
    decreases s.len() - q,
{
    if !(0 <= q <= s.len()) {
        fail(q, tab)
    } else if peek_s(s, q) == TokenView::RightParen {
        done(acc, adv(s, q), tab)
    } else {
        let name = parse_ident_s(s, q, tab);
        match name.res {
            Some(n) => {
                let (ok, q1) = expect_s(s, name.q, TokenView::Colon);
                if !ok {
                    fail(q1, bump(name.tab))
                } else {
                    let ty = parse_ty_s(s, q1, name.tab);
                    match ty.res {
                        Some(t) => {
                            let sep = peek_s(s, ty.q);
                            let q2 = adv(s, ty.q);
                            if sep == TokenView::Comma {
                                if q < q2 <= s.len() {
                                    params_loop_s(s, q2, ty.tab, acc.push((n, t)))
                                } else {
                                    fail(q2, ty.tab)
                                }
                            } else if sep == TokenView::RightParen {
                                done(acc.push((n, t)), q2, ty.tab)
                            } else {
                                fail(q2, bump(ty.tab))
                            }
                        },
                        None => fail(ty.q, ty.tab),
                    }
                }
            },
            None => fail(name.q, name.tab),
        }
    }
}

/// A function: `fn name(params) -> ret { body }`, the return type optional.
pub open spec fn parse_func_s(s: Seq<char>, q: int, tab: PState) -> Step<FuncV> {
    let (ok, q1) = expect_s(s, q, TokenView::Func);
    if !ok {
        fail(q1, bump(tab))
    } else {
        let name = parse_ident_s(s, q1, tab);
        match name.res {
            Some(n) => {
                let (ok2, q2) = expect_s(s, name.q, TokenView::LeftParen);
                if !ok2 {
                    fail(q2, bump(name.tab))
                } else {
                    let params = params_loop_s(s, q2, name.tab, Seq::empty());
                    match params.res {
                        Some(ps) => {
                            let ret: Step<Option<TyV>> = if peek_s(s, params.q)
                                == TokenView::ThinArrow {
                                let st = parse_ty_s(s, adv(s, params.q), params.tab);
                                match st.res {
                                    Some(t) => done(Some(t), st.q, st.tab),
                                    None => fail(st.q, st.tab),
                                }
                            } else {
                                done(None, params.q, params.tab)
                            };
                            match ret.res {
                                Some(r) => {
                                    let body = parse_block_s(s, ret.q, ret.tab);
                                    match body.res {
                                        Some(b) => done(
                                            FuncV { name: n, params: ps, ret: r, body: b },
                                            body.q,
                                            body.tab,
                                        ),
                                        None => fail(body.q, body.tab),
                                    }
                                },
                                None => fail(ret.q, ret.tab),
                            }
                        },
                        None => fail(params.q, params.tab),
                    }
                }
            },
            None => fail(name.q, name.tab),
        }
    }
}

/// Skips tokens up to the next `fn` or the end of the text.
pub open spec fn skip_to_func_s(s: Seq<char>, q: int) -> int
    decreases s.len() - q,
{
    if !(0 <= q <= s.len()) {
        q
    } else if peek_s(s, q) == TokenView::Func || peek_s(s, q) == TokenView::Eof {
        q
    } else {
        proof {
            lemma_next_sig(s, q);
        }
        skip_to_func_s(s, adv(s, q))
    }
}

/// The functions of a program from `q` on; a function in error is skipped
/// up to the next `fn`.
pub open spec fn program_loop_s(s: Seq<char>, q: int, tab: PState, acc: Seq<FuncV>) -> (
    Seq<FuncV>,
    PState,
)
    decreases s.len() - q,
{
    if !(0 <= q <= s.len()) || peek_s(s, q) == TokenView::Eof {
        (acc, tab)
    } else {
        let st = parse_func_s(s, q, tab);
        let (acc2, q2) = match st.res {
            Some(f) => (acc.push(f), st.q),
            None => (acc, skip_to_func_s(s, st.q)),
        };
        if q < q2 <= s.len() {
            program_loop_s(s, q2, st.tab, acc2)
        } else {
            (acc2, st.tab)
        }
    }
}

} // verus!
