//! Parsing of programs, functions, blocks and statements.
use vstd::prelude::*;

use crate::ast::{Block, Expr, ExprKind, Func, Ident, Mutability, Program, Stmt, StmtKind, Ty};
use crate::diagnostics::{Diagnostic, DiagnosticReporter, ErrGuaranteed};
use crate::interner::Index;
use crate::parser::grammar::{
    adv, block_loop_s, block_v, expect_s, expr_v, func_v, lemma_next_sig, params_loop_s,
    parse_block_s, parse_func_s, parse_ident_s, parse_stmt_s, peek_s, program_loop_s, bump, PState,
    skip_to_func_s, stmt_v, stmts_v, sync_block_s, tail_v, ty_v, FuncV, StmtOrTailV, StmtV, TyV,
};
use crate::ast::sexpr::{
    block_syms, expr_syms, func_syms, lemma_block_syms_mono, lemma_expr_syms_mono,
    lemma_func_syms_mono, lemma_stmt_syms_mono, lemma_ty_syms_mono, program_syms, stmt_syms, ty_syms,
};
use crate::parser::helpers::same_kind;
use crate::parser::lexer::{Token, TokenView};
use crate::parser::{grew, lemma_grew_trans, lemma_syntax_error, syntax_error, Parser};

verus! {

/// A statement, or the expression that ends a block.
pub enum StmtOrTail {
    Stmt(Stmt),
    Tail(Expr),
}

/// The view of a statement or tail expression.
pub open spec fn stmt_or_tail_v(x: StmtOrTail) -> StmtOrTailV {
    match x {
        StmtOrTail::Stmt(s) => StmtOrTailV::Stmt(stmt_v(s)),
        StmtOrTail::Tail(e) => StmtOrTailV::Tail(expr_v(e)),
    }
}

/// Every symbol of a statement or tail expression is below `n`.
pub open spec fn stmt_or_tail_syms(x: StmtOrTail, n: nat) -> bool {
    match x {
        StmtOrTail::Stmt(s) => stmt_syms(s, n),
        StmtOrTail::Tail(e) => expr_syms(e, n),
    }
}

/// The views of a function's parameters.
pub open spec fn params_v(ps: Seq<(Ident, Ty)>) -> Seq<(nat, TyV)> {
    ps.map_values(|p: (Ident, Ty)| (p.0.sym.index_of(), ty_v(p.1)))
}

/// The views of a program's functions.
pub open spec fn funcs_v(fs: Seq<Func>) -> Seq<FuncV> {
    fs.map_values(|f: Func| func_v(f))
}

impl<'a, R: DiagnosticReporter> Parser<'a, R> {
    /// The functions of the program, from the current token to the end of
    /// the text; a function in error is skipped up to the next `fn`.
    pub fn parse_program(&mut self) -> (r: Program)
        requires
            old(self).wf(),
        ensures
            grew(old(self).log(), final(self).log()),
            ({
                let (fs, tab) = program_loop_s(
                    old(self).text(),
                    old(self).pos(),
                    old(self).pstate(),
                    Seq::empty(),
                );
                &&& funcs_v(r.funcs@) == fs
                &&& final(self).wf()
                &&& final(self).text() == old(self).text()
                &&& final(self).pstate() == tab
            }),
            old(self).table().len() <= final(self).table().len(),
            program_syms(r, final(self).table().len()),
            forall|i: int| 0 <= i < r.funcs@.len() ==> (#[trigger] r.funcs@[i]).ty_params@.len() == 0,
    {
        proof {
            self.lemma_room();
        }
        let ghost s = self.text();
        let ghost q = self.pos();
        let ghost tab = self.pstate();
        let mut funcs: Vec<Func> = Vec::new();
        proof {
            assert(funcs_v(funcs@) =~= Seq::<FuncV>::empty());
        }
        while !same_kind(&self.peek(), &Token::Eof)
            invariant
                grew(old(self).log(), self.log()),
                s == old(self).text(),
                q == old(self).pos(),
                tab == old(self).pstate(),
                self.wf(),
                self.text() == s,
                program_loop_s(s, q, tab, Seq::empty()) == program_loop_s(
                    s,
                    self.pos(),
                    self.pstate(),
                    funcs_v(funcs@),
                ),
                tab.syms.len() <= self.table().len(),
                forall|i: int| 0 <= i < funcs@.len() ==> func_syms(#[trigger] funcs@[i], self.table().len()),
                forall|i: int| 0 <= i < funcs@.len() ==> (#[trigger] funcs@[i]).ty_params@.len() == 0,
            decreases s.len() - self.pos(),
        {
            let ghost qc = self.pos();
            let ghost acc = funcs_v(funcs@);
            let ghost n0 = self.table().len();
            proof {
                self.lemma_room();
                lemma_next_sig(s, qc);
            }
            let item = self.parse_top_level_item();
            proof {
                assert forall|i: int| 0 <= i < funcs@.len() implies func_syms(
                    #[trigger] funcs@[i],
                    self.table().len(),
                ) by {
                    lemma_func_syms_mono(funcs@[i], n0, self.table().len());
                }
            }
            match item {
                Ok(func) => {
                    funcs.push(func);
                    proof {
                        assert(funcs_v(funcs@) =~= acc.push(func_v(func)));
                    }
                },
                _ => {
                    self.skip_to_func();
                },
            }
        }
        Program { funcs }
    }

    fn parse_top_level_item(&mut self) -> (r: Result<Func, ErrGuaranteed>)
        requires
            old(self).wf(),
        ensures
            grew(old(self).log(), final(self).log()),
            r is Err ==> old(self).log().len() < final(self).log().len(),
            ({
                let st = parse_func_s(old(self).text(), old(self).pos(), old(self).pstate());
                &&& final(self).state_is(old(self).text(), st.q, st.tab)
                &&& match r {
                    Ok(f) => st.res == Some(func_v(f)),
                    Err(_) => st.res is None,
                }
            }),
            old(self).pos() <= final(self).pos(),
            peek_s(old(self).text(), old(self).pos()) != TokenView::Eof ==> old(self).pos()
                < final(self).pos(),
            old(self).table().len() <= final(self).table().len(),
            r matches Ok(f) ==> func_syms(f, final(self).table().len()),
            r matches Ok(f) ==> f.ty_params@.len() == 0,
    {
        proof {
            self.lemma_room();
        }
        self.parse_func()
    }

    /// Skips tokens up to the next `fn` or the end of the text.
    fn skip_to_func(&mut self)
        requires
            old(self).wf(),
        ensures
            final(self).log() == old(self).log(),
            final(self).state_is(
                old(self).text(),
                skip_to_func_s(old(self).text(), old(self).pos()),
                old(self).pstate(),
            ),
            old(self).pos() <= final(self).pos(),
    {
        proof {
            self.lemma_room();
        }
        let ghost s = self.text();
        let ghost q = self.pos();
        loop
            invariant
                self.log() == old(self).log(),
                s == old(self).text(),
                q == old(self).pos(),
                self.wf(),
                self.text() == s,
                self.table() == old(self).table(),
                q <= self.pos(),
                skip_to_func_s(s, q) == skip_to_func_s(s, self.pos()),
            decreases s.len() - self.pos(),
        {
            proof {
                self.lemma_room();
                lemma_next_sig(s, self.pos());
            }
            match self.peek() {
                Token::Func => {
                    return ;
                },
                Token::Eof => {
                    return ;
                },
                _ => {},
            }
            self.consume();
        }
    }

    fn parse_func(&mut self) -> (r: Result<Func, ErrGuaranteed>)
        requires
            old(self).wf(),
        ensures
            grew(old(self).log(), final(self).log()),
            r is Err ==> old(self).log().len() < final(self).log().len(),
            ({
                let st = parse_func_s(old(self).text(), old(self).pos(), old(self).pstate());
                &&& final(self).state_is(old(self).text(), st.q, st.tab)
                &&& match r {
                    Ok(f) => st.res == Some(func_v(f)),
                    Err(_) => st.res is None,
                }
            }),
            old(self).pos() <= final(self).pos(),
            peek_s(old(self).text(), old(self).pos()) != TokenView::Eof ==> old(self).pos()
                < final(self).pos(),
            old(self).table().len() <= final(self).table().len(),
            r matches Ok(f) ==> func_syms(f, final(self).table().len()),
            r matches Ok(f) ==> f.ty_params@.len() == 0,
    {
        proof {
            self.lemma_room();
        }
        let ghost s = self.text();
        proof {
            self.lemma_room();
            lemma_next_sig(s, self.pos());
        }
        if let Err(e) = self.expect(Token::Func) {
            return Err(e);
        }
        let name = match self.parse_ident() {
            Ok(n) => n,
            Err(e) => {
                return Err(e);
            },
        };
        let params = match self.parse_params() {
            Ok(p) => p,
            Err(e) => {
                return Err(e);
            },
        };
        let ghost np = self.table().len();
        proof {
            self.lemma_room();
            lemma_next_sig(s, self.pos());
        }
        let ret = if self.check(Token::ThinArrow) {
            match self.parse_ty() {
                Ok(t) => Some(t),
                Err(e) => {
                    return Err(e);
                },
            }
        } else {
            None
        };
        let ghost nr = self.table().len();
        let body = match self.parse_block() {
            Ok(b) => b,
            Err(e) => {
                return Err(e);
            },
        };
        proof {
            assert forall|i: int| 0 <= i < params@.len() implies (#[trigger] params@[i]).0.sym.index_of()
                < self.table().len() && ty_syms(params@[i].1, self.table().len()) by {
                lemma_ty_syms_mono(params@[i].1, np, self.table().len());
            }
            if ret is Some {
                lemma_ty_syms_mono(ret->Some_0, nr, self.table().len());
            }
        }
        Ok(Func { name, ty_params: Vec::new(), params, ret, body })
    }

    /// A parameter list: `(`, `name: type` pairs separated by commas, `)`.
    fn parse_params(&mut self) -> (r: Result<Vec<(Ident, Ty)>, ErrGuaranteed>)
        requires
            old(self).wf(),
        ensures
            grew(old(self).log(), final(self).log()),
            r is Err ==> old(self).log().len() < final(self).log().len(),
            ({
                let s = old(self).text();
                let (ok, q1) = expect_s(s, old(self).pos(), TokenView::LeftParen);
                let st = params_loop_s(s, q1, old(self).pstate(), Seq::empty());
                if ok {
                    &&& final(self).state_is(s, st.q, st.tab)
                    &&& match r {
                        Ok(v) => st.res == Some(params_v(v@)),
                        Err(_) => st.res is None,
                    }
                } else {
                    r is Err && final(self).state_is(s, q1, bump(old(self).pstate()))
                }
            }),
            old(self).pos() <= final(self).pos(),
            old(self).table().len() <= final(self).table().len(),
            r matches Ok(v) ==> forall|i: int| 0 <= i < v@.len() ==> (#[trigger] v@[i]).0.sym.index_of() < final(self).table().len() && ty_syms(v@[i].1, final(self).table().len()),
    {
        proof {
            self.lemma_room();
        }
        let ghost s = self.text();
        proof {
            self.lemma_room();
            lemma_next_sig(s, self.pos());
        }
        if let Err(e) = self.expect(Token::LeftParen) {
            return Err(e);
        }
        let ghost q1 = self.pos();
        let ghost tab = self.pstate();
        let mut params: Vec<(Ident, Ty)> = Vec::new();
        proof {
            assert(params_v(params@) =~= Seq::<(nat, TyV)>::empty());
        }
        loop
            invariant
                grew(old(self).log(), self.log()),
                s == old(self).text(),
                tab == old(self).pstate(),
                q1 == adv(s, old(self).pos()),
                peek_s(s, old(self).pos()) == TokenView::LeftParen,
                old(self).pos() <= q1 <= self.pos(),
                self.wf(),
                self.text() == s,
                params_loop_s(s, q1, tab, Seq::empty()) == params_loop_s(
                    s,
                    self.pos(),
                    self.pstate(),
                    params_v(params@),
                ),
                tab.syms.len() <= self.table().len(),
                forall|i: int|
                    0 <= i < params@.len() ==> (#[trigger] params@[i]).0.sym.index_of()
                        < self.table().len() && ty_syms(params@[i].1, self.table().len()),
            decreases s.len() - self.pos(),
        {
            let ghost qc = self.pos();
            let ghost acc = params_v(params@);
            let ghost n0 = self.table().len();
            proof {
                self.lemma_room();
                lemma_next_sig(s, qc);
            }
            if same_kind(&self.peek(), &Token::RightParen) {
                self.consume();
                return Ok(params);
            }
            let name = match self.parse_ident() {
                Ok(n) => n,
                Err(e) => {
                    return Err(e);
                },
            };
            proof {
                self.lemma_room();
                lemma_next_sig(s, self.pos());
            }
            if let Err(e) = self.expect(Token::Colon) {
                return Err(e);
            }
            let ty = match self.parse_ty() {
                Ok(t) => t,
                Err(e) => {
                    return Err(e);
                },
            };
            proof {
                assert forall|i: int| 0 <= i < params@.len() implies (#[trigger] params@[i]).0.sym.index_of()
                    < self.table().len() && ty_syms(params@[i].1, self.table().len()) by {
                    lemma_ty_syms_mono(params@[i].1, n0, self.table().len());
                }
            }
            params.push((name, ty));
            proof {
                assert(params_v(params@) =~= acc.push((name.sym.index_of(), ty_v(ty))));
                self.lemma_room();
                lemma_next_sig(s, self.pos());
            }
            let t = self.consume().token;
            if same_kind(&t, &Token::Comma) {
            } else if same_kind(&t, &Token::RightParen) {
                return Ok(params);
            } else {
                return Err(self.unexpected_prev());
            }
        }
    }

    /// A block: `{`, statements, an optional tail expression, `}`.
    pub fn parse_block(&mut self) -> (r: Result<Block, ErrGuaranteed>)
        requires
            old(self).wf(),
        ensures
            grew(old(self).log(), final(self).log()),
            r is Err ==> old(self).log().len() < final(self).log().len(),
            ({
                let st = parse_block_s(old(self).text(), old(self).pos(), old(self).pstate());
                &&& final(self).state_is(old(self).text(), st.q, st.tab)
                &&& match r {
                    Ok(b) => st.res == Some(block_v(b)),
                    Err(_) => st.res is None,
                }
            }),
            old(self).pos() <= final(self).pos(),
            r is Ok ==> old(self).pos() < final(self).pos(),
            old(self).table().len() <= final(self).table().len(),
            r matches Ok(b) ==> block_syms(b, final(self).table().len()),
        decreases old(self).text().len() - old(self).pos(), 0nat,
    {
        proof {
            self.lemma_room();
        }
        let ghost s = self.text();
        let ghost q = self.pos();
        let ghost tab = self.pstate();
        proof {
            lemma_next_sig(s, q);
        }
        if let Err(e) = self.expect(Token::LeftBrace) {
            return Err(e);
        }
        let mut stmts: Vec<Stmt> = Vec::new();
        proof {
            assert(stmts_v(stmts) =~= Seq::<StmtV>::empty());
        }
        let mut tail: Option<Box<Expr>> = None;
        loop
            invariant_except_break
                tail is None,
                block_loop_s(s, adv(s, q), tab, Seq::empty()) == block_loop_s(
                    s,
                    self.pos(),
                    self.pstate(),
                    stmts_v(stmts),
                ),
            invariant
                grew(old(self).log(), self.log()),
                s == old(self).text(),
                q == old(self).pos(),
                tab == old(self).pstate(),
                self.wf(),
                self.text() == s,
                q < self.pos() <= s.len(),
                tab.syms.len() <= self.table().len(),
                forall|i: int| 0 <= i < stmts@.len() ==> stmt_syms(#[trigger] stmts@[i], self.table().len()),
                tail matches Some(e) ==> expr_syms(*e, self.table().len()),
            ensures
                self.wf(),
                self.text() == s,
                q < self.pos() <= s.len(),
                tab.syms.len() <= self.table().len(),
                forall|i: int| 0 <= i < stmts@.len() ==> stmt_syms(#[trigger] stmts@[i], self.table().len()),
                tail matches Some(e) ==> expr_syms(*e, self.table().len()),
                block_loop_s(s, adv(s, q), tab, Seq::empty()) == crate::parser::grammar::done(
                    (stmts_v(stmts), tail_v(tail)),
                    self.pos(),
                    self.pstate(),
                ),
            decreases s.len() - self.pos(),
        {
            let ghost qc = self.pos();
            let ghost acc = stmts_v(stmts);
            proof {
                self.lemma_room();
                lemma_next_sig(s, qc);
            }
            let t = self.peek();
            if same_kind(&t, &Token::RightBrace) || same_kind(&t, &Token::Eof) {
                break ;
            }
            let ghost n0 = self.table().len();
            let item = self.parse_stmt();
            proof {
                assert forall|i: int| 0 <= i < stmts@.len() implies stmt_syms(
                    #[trigger] stmts@[i],
                    self.table().len(),
                ) by {
                    lemma_stmt_syms_mono(stmts@[i], n0, self.table().len());
                }
            }
            match item {
                Ok(StmtOrTail::Stmt(stmt)) => {
                    stmts.push(stmt);
                    proof {
                        assert(stmts_v(stmts) =~= acc.push(stmt_v(stmt)));
                    }
                },
                Ok(StmtOrTail::Tail(expr)) => {
                    tail = Some(Box::new(expr));
                    break ;
                },
                Err(_) => {
                    self.sync_block();
                },
            }
        }
        proof {
            self.lemma_room();
            lemma_next_sig(s, self.pos());
        }
        let _ = self.expect(Token::RightBrace);
        Ok(Block { stmts, tail })
    }

    /// Skips to the end of the statement in error: past the next `;`, or to
    /// the `}` of the block, outside nested blocks.
    fn sync_block(&mut self)
        requires
            old(self).wf(),
        ensures
            final(self).log() == old(self).log(),
            final(self).state_is(
                old(self).text(),
                sync_block_s(old(self).text(), old(self).pos(), 0),
                old(self).pstate(),
            ),
            old(self).pos() <= final(self).pos(),
            peek_s(old(self).text(), old(self).pos()) != TokenView::RightBrace && peek_s(
                old(self).text(),
                old(self).pos(),
            ) != TokenView::Eof ==> old(self).pos() < final(self).pos(),
    {
        proof {
            self.lemma_room();
        }
        let ghost s = self.text();
        let ghost q = self.pos();
        proof {
            self.lemma_room();
        }
        let mut level: i64 = 0;
        loop
            invariant
                self.log() == old(self).log(),
                s == old(self).text(),
                q == old(self).pos(),
                self.wf(),
                self.text() == s,
                self.table() == old(self).table(),
                q <= self.pos() <= s.len(),
                s.len() - q <= u32::MAX + 1,
                -(self.pos() - q) <= level <= self.pos() - q,
                self.pos() == q ==> level == 0,
                sync_block_s(s, q, 0) == sync_block_s(s, self.pos(), level as int),
            decreases s.len() - self.pos(),
        {
            let ghost qc = self.pos();
            proof {
                self.lemma_room();
                lemma_next_sig(s, qc);
            }
            if same_kind(&self.peek(), &Token::RightBrace) && level == 0 {
                return ;
            }
            let t = self.consume().token;
            if same_kind(&t, &Token::LeftBrace) {
                level = level + 1;
            } else if same_kind(&t, &Token::RightBrace) {
                level = level - 1;
            } else if same_kind(&t, &Token::Semi) && level == 0 {
                return ;
            } else if same_kind(&t, &Token::Eof) {
                return ;
            }
        }
    }

    /// A statement, or the expression that ends a block.
    fn parse_stmt(&mut self) -> (r: Result<StmtOrTail, ErrGuaranteed>)
        requires
            old(self).wf(),
        ensures
            grew(old(self).log(), final(self).log()),
            r is Err ==> old(self).log().len() < final(self).log().len(),
            ({
                let st = parse_stmt_s(old(self).text(), old(self).pos(), old(self).pstate());
                &&& final(self).state_is(old(self).text(), st.q, st.tab)
                &&& match r {
                    Ok(x) => st.res == Some(stmt_or_tail_v(x)),
                    Err(_) => st.res is None,
                }
            }),
            old(self).pos() <= final(self).pos(),
            r is Ok ==> old(self).pos() < final(self).pos(),
            old(self).table().len() <= final(self).table().len(),
            r matches Ok(x) ==> stmt_or_tail_syms(x, final(self).table().len()),
        decreases old(self).text().len() - old(self).pos(), 7nat,
    {
        proof {
            self.lemma_room();
        }
        let t = self.peek();
        if same_kind(&t, &Token::Let) || same_kind(&t, &Token::Var) {
            self.parse_let()
        } else {
            self.parse_expr_stmt()
        }
    }

    /// A `let` or `var` binding.
    #[verifier::rlimit(60)]
    fn parse_let(&mut self) -> (r: Result<StmtOrTail, ErrGuaranteed>)
        requires
            old(self).wf(),
            peek_s(old(self).text(), old(self).pos()) == TokenView::Let || peek_s(
                old(self).text(),
                old(self).pos(),
            ) == TokenView::Var,
        ensures
            grew(old(self).log(), final(self).log()),
            r is Err ==> old(self).log().len() < final(self).log().len(),
            ({
                let st = parse_stmt_s(old(self).text(), old(self).pos(), old(self).pstate());
                &&& final(self).state_is(old(self).text(), st.q, st.tab)
                &&& match r {
                    Ok(x) => st.res == Some(stmt_or_tail_v(x)),
                    Err(_) => st.res is None,
                }
            }),
            old(self).pos() < final(self).pos(),
            old(self).table().len() <= final(self).table().len(),
            r matches Ok(x) ==> stmt_or_tail_syms(x, final(self).table().len()),
        decreases old(self).text().len() - old(self).pos(), 6nat,
    {
        proof {
            self.lemma_room();
        }
        let ghost s = self.text();
        let ghost q = self.pos();
        let ghost l0 = self.log();
        proof {
            lemma_next_sig(s, q);
        }
        let start = self.curr_pos();
        let mutability = if same_kind(&self.consume().token, &Token::Let) {
            Mutability::Not
        } else {
            Mutability::Mut
        };
        let name = match self.parse_ident() {
            Ok(n) => n,
            Err(e) => {
                return Err(e);
            },
        };
        let ghost l1 = self.log();
        proof {
            self.lemma_room();
            lemma_next_sig(s, self.pos());
        }
        let ty = if self.check(Token::Colon) {
            match self.parse_ty() {
                Ok(t) => Some(Box::new(t)),
                Err(e) => {
                    return Err(e);
                },
            }
        } else {
            None
        };
        let ghost nt = self.table().len();
        let ghost l2 = self.log();
        proof {
            lemma_grew_trans(l0, l1, l2);
            self.lemma_room();
            lemma_next_sig(s, self.pos());
        }
        if let Err(e) = self.expect(Token::Eq) {
            return Err(e);
        }
        let ghost l3 = self.log();
        let value = match self.parse_expr() {
            Ok(v) => v,
            Err(e) => {
                return Err(e);
            },
        };
        proof {
            lemma_grew_trans(l0, l3, self.log());
            if ty is Some {
                lemma_ty_syms_mono(*ty->Some_0, nt, self.table().len());
            }
        }
        proof {
            self.lemma_room();
            lemma_next_sig(s, self.pos());
        }
        if let Err(e) = self.expect(Token::Semi) {
            return Err(e);
        }
        let kind = StmtKind::Let(name, ty, Box::new(value), mutability);
        Ok(StmtOrTail::Stmt(self.make_spanned(start, kind)))
    }

    /// An expression statement, an assignment, or the expression that ends
    /// a block.
    #[verifier::rlimit(60)]
    fn parse_expr_stmt(&mut self) -> (r: Result<StmtOrTail, ErrGuaranteed>)
        requires
            old(self).wf(),
            peek_s(old(self).text(), old(self).pos()) != TokenView::Let && peek_s(
                old(self).text(),
                old(self).pos(),
            ) != TokenView::Var,
        ensures
            grew(old(self).log(), final(self).log()),
            r is Err ==> old(self).log().len() < final(self).log().len(),
            ({
                let st = parse_stmt_s(old(self).text(), old(self).pos(), old(self).pstate());
                &&& final(self).state_is(old(self).text(), st.q, st.tab)
                &&& match r {
                    Ok(x) => st.res == Some(stmt_or_tail_v(x)),
                    Err(_) => st.res is None,
                }
            }),
            old(self).pos() <= final(self).pos(),
            r is Ok ==> old(self).pos() < final(self).pos(),
            old(self).table().len() <= final(self).table().len(),
            r matches Ok(x) ==> stmt_or_tail_syms(x, final(self).table().len()),
        decreases old(self).text().len() - old(self).pos(), 6nat,
    {
        proof {
            self.lemma_room();
        }
        let ghost s = self.text();
        let ghost q = self.pos();
        proof {
            lemma_next_sig(s, q);
        }
        let start = self.curr_pos();
        let has_block = same_kind(&self.peek(), &Token::If);
        let expr = match self.parse_expr() {
            Ok(e) => e,
            Err(e) => {
                return Err(e);
            },
        };
        proof {
            self.lemma_room();
            lemma_next_sig(s, self.pos());
        }
        let t2 = self.peek();
        let kind = if same_kind(&t2, &Token::Eq) {
            self.consume();
            let lhs = match self.convert_expr_to_place(expr) {
                Ok(l) => l,
                Err(e) => {
                    return Err(e);
                },
            };
            let rhs = match self.parse_expr() {
                Ok(e) => e,
                Err(e) => {
                    return Err(e);
                },
            };
            proof {
                self.lemma_room();
                lemma_next_sig(s, self.pos());
            }
            if let Err(e) = self.expect(Token::Semi) {
                return Err(e);
            }
            StmtKind::Assign(lhs, Box::new(rhs))
        } else if same_kind(&t2, &Token::Semi) {
            self.consume();
            StmtKind::Expr(Box::new(expr))
        } else if same_kind(&t2, &Token::RightBrace) {
            return Ok(StmtOrTail::Tail(expr));
        } else if has_block {
            StmtKind::Expr(Box::new(expr))
        } else {
            return Err(self.unexpected_prev());
        };
        Ok(StmtOrTail::Stmt(self.make_spanned(start, kind)))
    }

    /// A name.
    pub fn parse_ident(&mut self) -> (r: Result<Ident, ErrGuaranteed>)
        requires
            old(self).wf(),
        ensures
            r is Err ==> final(self).log() == old(self).log().push(syntax_error("expected an identifier"@, old(self).current_span())),
            grew(old(self).log(), final(self).log()),
            r is Err ==> old(self).log().len() < final(self).log().len(),
            ({
                let st = parse_ident_s(old(self).text(), old(self).pos(), old(self).pstate());
                &&& final(self).state_is(old(self).text(), st.q, st.tab)
                &&& match r {
                    Ok(id) => st.res == Some(id.sym.index_of()),
                    Err(_) => st.res is None,
                }
            }),
            old(self).pos() <= final(self).pos(),
            r is Ok ==> old(self).pos() < final(self).pos(),
            old(self).table().len() <= final(self).table().len(),
            r matches Ok(id) ==> id.sym.index_of() < final(self).table().len(),
    {
        proof {
            self.lemma_room();
        }
        proof {
            self.lemma_room();
            lemma_next_sig(self.text(), self.pos());
        }
        let token = self.consume();
        match token.token {
            Token::Ident(raw) => {
                let id = self.next_id();
                proof {
                    self.lemma_room();
                }
                let sym = self.make_symbol(raw);
                Ok(Ident { id, sym, span: token.span })
            },
            _ => {
                let diagnostic = Diagnostic::error("expected an identifier", token.span);
                proof {
                    lemma_syntax_error(diagnostic);
                }
                Err(self.report_err(diagnostic))
            },
        }
    }

    /// The name an assignment assigns to.
    fn convert_expr_to_place(&mut self, expr: Expr) -> (r: Result<Ident, ErrGuaranteed>)
        requires
            expr_syms(expr, old(self).table().len()),
            old(self).wf(),
        ensures
            r is Err ==> final(self).log() == old(self).log().push(syntax_error("this expression can not be assigned to"@, expr.span)),
            grew(old(self).log(), final(self).log()),
            r is Err ==> old(self).log().len() < final(self).log().len(),
            final(self).state_is(
                old(self).text(),
                old(self).pos(),
                if r is Ok {
                    old(self).pstate()
                } else {
                    bump(old(self).pstate())
                },
            ),
            match r {
                Ok(id) => expr_v(expr) == crate::parser::grammar::ExprV::Var(id.sym.index_of()),
                Err(_) => !(expr_v(expr) is Var),
            },
            r matches Ok(id) ==> id.sym.index_of() < final(self).table().len(),
    {
        proof {
            self.lemma_room();
        }
        match expr.node {
            ExprKind::Var(ident) => Ok(ident),
            _ => {
                let diagnostic = Diagnostic::error("this expression can not be assigned to", expr.span);
                proof {
                    lemma_syntax_error(diagnostic);
                }
                Err(self.report_err(diagnostic))
            },
        }
    }
}

} // verus!
