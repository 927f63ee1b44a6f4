//! Parsing of expressions, by precedence climbing.
use vstd::prelude::*;

use crate::ast::{BinOp, Expr, ExprKind, Lit, UnaryOp};
use crate::ast::sexpr::{block_syms, expr_syms, lemma_expr_syms_mono};
use crate::diagnostics::{Diagnostic, DiagnosticReporter, ErrGuaranteed};
use crate::escape::unescape;
use crate::interner::Index;
use crate::parser::grammar::{
    adv, binop_of, block_v, expr_v, exprs_v, infix_prec, lemma_next_sig, lemma_peek_str,
    parse_block_s, parse_expr_s, parse_list_s, parse_precedence_s, parse_prefix_s, peek_s,
    prec_loop_s, infix_step_s, ExprV,
};
use crate::parser::helpers::{plain, same_kind};
use crate::parser::lexer::{Token, TokenView};
use crate::parser::{grew, Parser};
use crate::span::Span;

verus! {

/// How tightly an operator binds, loosest first.
#[derive(Clone, Copy, PartialEq, Eq, Debug)]
enum Precedence {
    Lowest,
    Equality,
    Comparison,
    Term,
    Factor,
    Unary,
    Call,
    Primary,
}

/// The rank of a precedence level.
spec fn prec_level(p: Precedence) -> nat {
    match p {
        Precedence::Lowest => 0,
        Precedence::Equality => 1,
        Precedence::Comparison => 2,
        Precedence::Term => 3,
        Precedence::Factor => 4,
        Precedence::Unary => 5,
        Precedence::Call => 6,
        Precedence::Primary => 7,
    }
}

impl Precedence {
    fn level(self) -> (r: u8)
        ensures
            r == prec_level(self),
    {
        match self {
            Precedence::Lowest => 0,
            Precedence::Equality => 1,
            Precedence::Comparison => 2,
            Precedence::Term => 3,
            Precedence::Factor => 4,
            Precedence::Unary => 5,
            Precedence::Call => 6,
            Precedence::Primary => 7,
        }
    }
}

/// Whether a number's text has a decimal point.
fn has_dot(raw: &str) -> (r: bool)
    ensures
        r == raw@.contains('.'),
{
    let n = raw.unicode_len();
    let mut i: usize = 0;
    while i < n
        invariant
            n == raw@.len(),
            i <= n,
            forall|j: int| 0 <= j < i ==> raw@[j] != '.',
        decreases n - i,
    {
        if raw.get_char(i) == '.' {
            assert(raw@[i as int] == '.');
            return true;
        }
        i = i + 1;
    }
    false
}

impl<'a, R: DiagnosticReporter> Parser<'a, R> {
    pub fn parse_expr(&mut self) -> (r: Result<Expr, ErrGuaranteed>)
        requires
            old(self).wf(),
        ensures
            grew(old(self).log(), final(self).log()),
            r is Err ==> old(self).log().len() < final(self).log().len(),
            ({
                let st = parse_expr_s(old(self).text(), old(self).pos(), old(self).pstate());
                &&& final(self).state_is(old(self).text(), st.q, st.tab)
                &&& match r {
                    Ok(e) => st.res == Some(expr_v(e)),
                    Err(_) => st.res is None,
                }
            }),
            old(self).pos() <= final(self).pos(),
            r is Ok ==> old(self).pos() < final(self).pos(),
            old(self).table().len() <= final(self).table().len(),
            r matches Ok(e) ==> expr_syms(e, final(self).table().len()),
        decreases old(self).text().len() - old(self).pos(), 5nat,
    {
        proof {
            self.lemma_room();
        }
        self.parse_precedence(Precedence::Lowest)
    }

    fn parse_precedence(&mut self, min_prec: Precedence) -> (r: Result<Expr, ErrGuaranteed>)
        requires
            old(self).wf(),
        ensures
            grew(old(self).log(), final(self).log()),
            r is Err ==> old(self).log().len() < final(self).log().len(),
            ({
                let st = parse_precedence_s(
                    old(self).text(),
                    old(self).pos(),
                    old(self).pstate(),
                    prec_level(min_prec),
                );
                &&& final(self).state_is(old(self).text(), st.q, st.tab)
                &&& match r {
                    Ok(e) => st.res == Some(expr_v(e)),
                    Err(_) => st.res is None,
                }
            }),
            old(self).pos() <= final(self).pos(),
            r is Ok ==> old(self).pos() < final(self).pos(),
            old(self).table().len() <= final(self).table().len(),
            r matches Ok(e) ==> expr_syms(e, final(self).table().len()),
        decreases old(self).text().len() - old(self).pos(), 4nat,
    {
        proof {
            self.lemma_room();
        }
        let ghost s = self.text();
        let ghost q = self.pos();
        let ghost tab = self.pstate();
        let ghost min = prec_level(min_prec);
        let start = self.curr_pos();
        let mut expr = match self.parse_prefix() {
            Ok(e) => e,
            Err(e) => {
                return Err(e);
            },
        };
        loop
            invariant
                grew(old(self).log(), self.log()),
                s == old(self).text(),
                q == old(self).pos(),
                tab == old(self).pstate(),
                min == prec_level(min_prec),
                self.wf(),
                self.text() == s,
                q < self.pos() <= s.len(),
                parse_precedence_s(s, q, tab, min) == prec_loop_s(
                    s,
                    self.pos(),
                    self.pstate(),
                    expr_v(expr),
                    min,
                ),
                tab.syms.len() <= self.table().len(),
                expr_syms(expr, self.table().len()),
            decreases s.len() - self.pos(),
        {
            let ghost qc = self.pos();
            proof {
                self.lemma_room();
                lemma_next_sig(s, qc);
            }
            let prec = match self.peek() {
                Token::Plus => Precedence::Term,
                Token::Minus => Precedence::Term,
                Token::Asterisk => Precedence::Factor,
                Token::Solidus => Precedence::Factor,
                Token::EqEq | Token::BangEq => Precedence::Equality,
                Token::Lt | Token::LtEq | Token::Gt | Token::GtEq => Precedence::Comparison,
                Token::LeftParen => Precedence::Call,
                Token::LeftBracket => Precedence::Call,
                _ => {
                    return Ok(expr);
                },
            };
            if prec.level() < min_prec.level() {
                return Ok(expr);
            }
            let next = self.parse_infix(expr, start);
            expr = match next {
                Ok(e) => e,
                Err(e) => {
                    return Err(e);
                },
            };
        }
    }

    /// The operator at the current token and what follows it, after `lhs`.
    fn parse_infix(&mut self, lhs: Expr, start: u32) -> (r: Result<Expr, ErrGuaranteed>)
        requires
            expr_syms(lhs, old(self).table().len()),
            old(self).wf(),
            infix_prec(peek_s(old(self).text(), old(self).pos())) is Some,
        ensures
            grew(old(self).log(), final(self).log()),
            r is Err ==> old(self).log().len() < final(self).log().len(),
            ({
                let st = infix_step_s(
                    old(self).text(),
                    old(self).pos(),
                    old(self).pstate(),
                    expr_v(lhs),
                );
                &&& final(self).state_is(old(self).text(), st.q, st.tab)
                &&& match r {
                    Ok(e) => st.res == Some(expr_v(e)),
                    Err(_) => st.res is None,
                }
            }),
            old(self).pos() <= final(self).pos(),
            r is Ok ==> old(self).pos() < final(self).pos(),
            old(self).table().len() <= final(self).table().len(),
            r matches Ok(e) ==> expr_syms(e, final(self).table().len()),
        decreases old(self).text().len() - old(self).pos(), 3nat,
    {
        proof {
            self.lemma_room();
        }
        match self.peek() {
            Token::Plus => self.parse_binary(lhs, BinOp::Add, Precedence::Term),
            Token::Minus => self.parse_binary(lhs, BinOp::Sub, Precedence::Term),
            Token::Asterisk => self.parse_binary(lhs, BinOp::Mul, Precedence::Factor),
            Token::Solidus => self.parse_binary(lhs, BinOp::Div, Precedence::Factor),
            Token::EqEq => self.parse_binary(lhs, BinOp::Eq, Precedence::Equality),
            Token::BangEq => self.parse_binary(lhs, BinOp::NotEq, Precedence::Equality),
            Token::Lt => self.parse_binary(lhs, BinOp::Lt, Precedence::Comparison),
            Token::LtEq => self.parse_binary(lhs, BinOp::LtEq, Precedence::Comparison),
            Token::Gt => self.parse_binary(lhs, BinOp::Gt, Precedence::Comparison),
            Token::GtEq => self.parse_binary(lhs, BinOp::GtEq, Precedence::Comparison),
            Token::LeftParen => self.parse_call(lhs, start),
            _ => self.parse_index(lhs, start),
        }
    }

    /// The operator at the current token and its right operand, after
    /// `lhs`.
    fn parse_binary(&mut self, lhs: Expr, op: BinOp, prec: Precedence) -> (r: Result<
        Expr,
        ErrGuaranteed,
    >)
        requires
            expr_syms(lhs, old(self).table().len()),
            old(self).wf(),
            binop_of(peek_s(old(self).text(), old(self).pos())) == Some(op),
            infix_prec(peek_s(old(self).text(), old(self).pos())) == Some(prec_level(prec)),
        ensures
            grew(old(self).log(), final(self).log()),
            r is Err ==> old(self).log().len() < final(self).log().len(),
            ({
                let st = infix_step_s(
                    old(self).text(),
                    old(self).pos(),
                    old(self).pstate(),
                    expr_v(lhs),
                );
                &&& final(self).state_is(old(self).text(), st.q, st.tab)
                &&& match r {
                    Ok(e) => st.res == Some(expr_v(e)),
                    Err(_) => st.res is None,
                }
            }),
            old(self).pos() < final(self).pos(),
            old(self).table().len() <= final(self).table().len(),
            r matches Ok(e) ==> expr_syms(e, final(self).table().len()),
        decreases old(self).text().len() - old(self).pos(), 2nat,
    {
        proof {
            self.lemma_room();
        }
        proof {
            self.lemma_room();
            lemma_next_sig(self.text(), self.pos());
        }
        let ghost n0 = self.table().len();
        let op_token = self.consume();
        let rhs = match self.parse_precedence(prec) {
            Ok(e) => e,
            Err(e) => {
                return Err(e);
            },
        };
        proof {
            lemma_expr_syms_mono(lhs, n0, self.table().len());
        }
        let id = self.next_id();
        let span = Span::new(lhs.span.start, rhs.span.end);
        Ok(Expr { id, node: ExprKind::Binary(op, Box::new(lhs), Box::new(rhs), op_token.span), span })
    }

    /// A call of `func`: the argument list at the current token.
    fn parse_call(&mut self, func: Expr, start: u32) -> (r: Result<Expr, ErrGuaranteed>)
        requires
            expr_syms(func, old(self).table().len()),
            old(self).wf(),
            peek_s(old(self).text(), old(self).pos()) == TokenView::LeftParen,
        ensures
            grew(old(self).log(), final(self).log()),
            r is Err ==> old(self).log().len() < final(self).log().len(),
            ({
                let st = infix_step_s(
                    old(self).text(),
                    old(self).pos(),
                    old(self).pstate(),
                    expr_v(func),
                );
                &&& final(self).state_is(old(self).text(), st.q, st.tab)
                &&& match r {
                    Ok(e) => st.res == Some(expr_v(e)),
                    Err(_) => st.res is None,
                }
            }),
            old(self).pos() <= final(self).pos(),
            r is Ok ==> old(self).pos() < final(self).pos(),
            old(self).table().len() <= final(self).table().len(),
            r matches Ok(e) ==> expr_syms(e, final(self).table().len()),
        decreases old(self).text().len() - old(self).pos(), 2nat,
    {
        proof {
            self.lemma_room();
        }
        let ghost n0 = self.table().len();
        let arg_start = self.curr_pos();
        let args = match self.parse_list(Token::LeftParen, Token::RightParen) {
            Ok(a) => a,
            Err(e) => {
                return Err(e);
            },
        };
        proof {
            lemma_expr_syms_mono(func, n0, self.table().len());
        }
        let arg_span = self.make_span(arg_start);
        let node = ExprKind::Call(Box::new(func), args, arg_span);
        Ok(self.make_spanned(start, node))
    }

    /// An indexing of `array`: `[`, the index, `]`.
    fn parse_index(&mut self, array: Expr, start: u32) -> (r: Result<Expr, ErrGuaranteed>)
        requires
            expr_syms(array, old(self).table().len()),
            old(self).wf(),
            peek_s(old(self).text(), old(self).pos()) == TokenView::LeftBracket,
        ensures
            grew(old(self).log(), final(self).log()),
            r is Err ==> old(self).log().len() < final(self).log().len(),
            ({
                let st = infix_step_s(
                    old(self).text(),
                    old(self).pos(),
                    old(self).pstate(),
                    expr_v(array),
                );
                &&& final(self).state_is(old(self).text(), st.q, st.tab)
                &&& match r {
                    Ok(e) => st.res == Some(expr_v(e)),
                    Err(_) => st.res is None,
                }
            }),
            old(self).pos() < final(self).pos(),
            old(self).table().len() <= final(self).table().len(),
            r matches Ok(e) ==> expr_syms(e, final(self).table().len()),
        decreases old(self).text().len() - old(self).pos(), 2nat,
    {
        proof {
            self.lemma_room();
        }
        proof {
            self.lemma_room();
            lemma_next_sig(self.text(), self.pos());
        }
        let ghost n0 = self.table().len();
        self.consume();
        let index = match self.parse_expr() {
            Ok(e) => e,
            Err(e) => {
                return Err(e);
            },
        };
        proof {
            lemma_expr_syms_mono(array, n0, self.table().len());
        }
        if let Err(e) = self.expect(Token::RightBracket) {
            return Err(e);
        }
        let node = ExprKind::Index(Box::new(array), Box::new(index));
        Ok(self.make_spanned(start, node))
    }

    /// An operand: a literal, a name, a prefix operator and its operand, a
    /// parenthesised expression, an array, a conditional or a block.
    #[verifier::rlimit(50)]
    fn parse_prefix(&mut self) -> (r: Result<Expr, ErrGuaranteed>)
        requires
            old(self).wf(),
        ensures
            grew(old(self).log(), final(self).log()),
            r is Err ==> old(self).log().len() < final(self).log().len(),
            ({
                let st = parse_prefix_s(old(self).text(), old(self).pos(), old(self).pstate());
                &&& final(self).state_is(old(self).text(), st.q, st.tab)
                &&& match r {
                    Ok(e) => st.res == Some(expr_v(e)),
                    Err(_) => st.res is None,
                }
            }),
            old(self).pos() <= final(self).pos(),
            r is Ok ==> old(self).pos() < final(self).pos(),
            old(self).table().len() <= final(self).table().len(),
            r matches Ok(e) ==> expr_syms(e, final(self).table().len()),
        decreases old(self).text().len() - old(self).pos(), 3nat,
    {
        proof {
            self.lemma_room();
        }
        proof {
            self.lemma_room();
            lemma_next_sig(self.text(), self.pos());
        }
        let start = self.curr_pos();
        match self.peek() {
            Token::Null | Token::False | Token::True | Token::Number(_) | Token::Str(_) => {
                self.parse_lit(start)
            },
            Token::Ident(_) => self.parse_var(start),
            Token::Bang | Token::Minus => self.parse_unary(start),
            Token::LeftParen => self.parse_grouped(start),
            Token::LeftBracket => self.parse_array(start),
            Token::If => self.parse_if(start),
            Token::LeftBrace => self.parse_brace(),
            _ => {
                let ghost s = self.text();
                let ghost q = self.pos();
                let ghost tab = self.pstate();
                let e = self.unexpected_curr();
                proof {
                    assert(parse_prefix_s(s, q, tab).res is None);
                }
                Err(e)
            },
        }
    }

    /// A block as an operand.
    fn parse_brace(&mut self) -> (r: Result<Expr, ErrGuaranteed>)
        requires
            old(self).wf(),
            peek_s(old(self).text(), old(self).pos()) == TokenView::LeftBrace,
        ensures
            grew(old(self).log(), final(self).log()),
            r is Err ==> old(self).log().len() < final(self).log().len(),
            ({
                let st = parse_prefix_s(old(self).text(), old(self).pos(), old(self).pstate());
                &&& final(self).state_is(old(self).text(), st.q, st.tab)
                &&& match r {
                    Ok(e) => st.res == Some(expr_v(e)),
                    Err(_) => st.res is None,
                }
            }),
            old(self).pos() <= final(self).pos(),
            r is Ok ==> old(self).pos() < final(self).pos(),
            old(self).table().len() <= final(self).table().len(),
            r matches Ok(e) ==> expr_syms(e, final(self).table().len()),
        decreases old(self).text().len() - old(self).pos(), 2nat,
    {
        proof {
            self.lemma_room();
        }
        self.parse_block_expr()
    }

    /// A literal.
    fn parse_lit(&mut self, start: u32) -> (r: Result<Expr, ErrGuaranteed>)
        requires
            old(self).wf(),
            ({
                let t = peek_s(old(self).text(), old(self).pos());
                t is Null || t is False || t is True || t is Number || t is Str
            }),
        ensures
            grew(old(self).log(), final(self).log()),
            r is Err ==> old(self).log().len() < final(self).log().len(),
            ({
                let st = parse_prefix_s(old(self).text(), old(self).pos(), old(self).pstate());
                &&& final(self).state_is(old(self).text(), st.q, st.tab)
                &&& match r {
                    Ok(e) => st.res == Some(expr_v(e)),
                    Err(_) => st.res is None,
                }
            }),
            r is Ok,
            old(self).pos() < final(self).pos(),
            old(self).table().len() <= final(self).table().len(),
            r matches Ok(e) ==> expr_syms(e, final(self).table().len()),
    {
        proof {
            self.lemma_room();
        }
        let ghost s = self.text();
        let ghost q = self.pos();
        proof {
            lemma_next_sig(s, q);
        }
        let lit = match self.peek() {
            Token::Null => {
                self.consume();
                Lit::Null
            },
            Token::False => {
                self.consume();
                Lit::Bool(false)
            },
            Token::True => {
                self.consume();
                Lit::Bool(true)
            },
            Token::Number(raw) => {
                proof {
                    self.lemma_room();
                }
                self.consume();
                proof {
                    self.lemma_room();
                }
                if has_dot(raw) {
                    Lit::Float(self.make_symbol(raw))
                } else {
                    Lit::Int(self.make_symbol(raw))
                }
            },
            Token::Str(raw) => {
                proof {
                    lemma_peek_str(s, q);
                    self.lemma_room();
                }
                self.consume();
                proof {
                    self.lemma_room();
                }
                let n = raw.unicode_len();
                let inner = raw.substring_char(1, n - 1);
                proof {
                    crate::text::lemma_byte_len_take(raw@, n - 1);
                    crate::text::lemma_byte_len_take(raw@.take(n - 1), 1);
                    assert(raw@.take(n - 1).skip(1) =~= inner@);
                }
                let sym = match unescape(inner) {
                    Ok(text) => self.make_symbol(text.as_str()),
                    Err(err) => {
                        let off: u32 = if err.position < (u32::MAX - start) as usize {
                            err.position as u32
                        } else {
                            0
                        };
                        let span = Span::new(start + off, start + off);
                        let diagnostic = Diagnostic::error(err.kind.to_string().as_str(), span);
                        self.report_err(diagnostic);
                        self.make_symbol("err")
                    },
                };
                Lit::Str(sym)
            },
            _ => {
                proof {
                    assert(false);
                }
                Lit::Null
            },
        };
        Ok(self.make_spanned(start, ExprKind::Lit(lit)))
    }

    /// A name used as a value.
    fn parse_var(&mut self, start: u32) -> (r: Result<Expr, ErrGuaranteed>)
        requires
            old(self).wf(),
            peek_s(old(self).text(), old(self).pos()) is Ident,
        ensures
            grew(old(self).log(), final(self).log()),
            r is Err ==> old(self).log().len() < final(self).log().len(),
            ({
                let st = parse_prefix_s(old(self).text(), old(self).pos(), old(self).pstate());
                &&& final(self).state_is(old(self).text(), st.q, st.tab)
                &&& match r {
                    Ok(e) => st.res == Some(expr_v(e)),
                    Err(_) => st.res is None,
                }
            }),
            old(self).pos() <= final(self).pos(),
            r is Ok ==> old(self).pos() < final(self).pos(),
            old(self).table().len() <= final(self).table().len(),
            r matches Ok(e) ==> expr_syms(e, final(self).table().len()),
    {
        proof {
            self.lemma_room();
        }
        proof {
            self.lemma_room();
            lemma_next_sig(self.text(), self.pos());
        }
        match self.parse_ident() {
            Ok(ident) => Ok(self.make_spanned(start, ExprKind::Var(ident))),
            Err(e) => Err(e),
        }
    }

    /// A prefix operator and its operand.
    fn parse_unary(&mut self, start: u32) -> (r: Result<Expr, ErrGuaranteed>)
        requires
            old(self).wf(),
            peek_s(old(self).text(), old(self).pos()) == TokenView::Bang || peek_s(
                old(self).text(),
                old(self).pos(),
            ) == TokenView::Minus,
        ensures
            grew(old(self).log(), final(self).log()),
            r is Err ==> old(self).log().len() < final(self).log().len(),
            ({
                let st = parse_prefix_s(old(self).text(), old(self).pos(), old(self).pstate());
                &&& final(self).state_is(old(self).text(), st.q, st.tab)
                &&& match r {
                    Ok(e) => st.res == Some(expr_v(e)),
                    Err(_) => st.res is None,
                }
            }),
            old(self).pos() < final(self).pos(),
            old(self).table().len() <= final(self).table().len(),
            r matches Ok(e) ==> expr_syms(e, final(self).table().len()),
        decreases old(self).text().len() - old(self).pos(), 2nat,
    {
        proof {
            self.lemma_room();
        }
        proof {
            self.lemma_room();
            lemma_next_sig(self.text(), self.pos());
        }
        let op = if same_kind(&self.peek(), &Token::Bang) {
            UnaryOp::Not
        } else {
            UnaryOp::Negate
        };
        let span = self.consume().span;
        let operand = match self.parse_precedence(Precedence::Unary) {
            Ok(e) => e,
            Err(e) => {
                return Err(e);
            },
        };
        Ok(self.make_spanned(start, ExprKind::Unary(op, Box::new(operand), span)))
    }

    /// A parenthesised expression.
    fn parse_grouped(&mut self, start: u32) -> (r: Result<Expr, ErrGuaranteed>)
        requires
            old(self).wf(),
            peek_s(old(self).text(), old(self).pos()) == TokenView::LeftParen,
        ensures
            grew(old(self).log(), final(self).log()),
            r is Err ==> old(self).log().len() < final(self).log().len(),
            ({
                let st = parse_prefix_s(old(self).text(), old(self).pos(), old(self).pstate());
                &&& final(self).state_is(old(self).text(), st.q, st.tab)
                &&& match r {
                    Ok(e) => st.res == Some(expr_v(e)),
                    Err(_) => st.res is None,
                }
            }),
            old(self).pos() < final(self).pos(),
            old(self).table().len() <= final(self).table().len(),
            r matches Ok(e) ==> expr_syms(e, final(self).table().len()),
        decreases old(self).text().len() - old(self).pos(), 2nat,
    {
        proof {
            self.lemma_room();
        }
        proof {
            self.lemma_room();
            lemma_next_sig(self.text(), self.pos());
        }
        self.consume();
        let inner = match self.parse_expr() {
            Ok(e) => e,
            Err(e) => {
                return Err(e);
            },
        };
        proof {
            self.lemma_room();
            lemma_next_sig(self.text(), self.pos());
        }
        if let Err(e) = self.expect(Token::RightParen) {
            return Err(e);
        }
        Ok(self.make_spanned(start, ExprKind::Grouped(Box::new(inner))))
    }

    /// An array: a bracketed list of expressions.
    fn parse_array(&mut self, start: u32) -> (r: Result<Expr, ErrGuaranteed>)
        requires
            old(self).wf(),
            peek_s(old(self).text(), old(self).pos()) == TokenView::LeftBracket,
        ensures
            grew(old(self).log(), final(self).log()),
            r is Err ==> old(self).log().len() < final(self).log().len(),
            ({
                let st = parse_prefix_s(old(self).text(), old(self).pos(), old(self).pstate());
                &&& final(self).state_is(old(self).text(), st.q, st.tab)
                &&& match r {
                    Ok(e) => st.res == Some(expr_v(e)),
                    Err(_) => st.res is None,
                }
            }),
            old(self).pos() <= final(self).pos(),
            r is Ok ==> old(self).pos() < final(self).pos(),
            old(self).table().len() <= final(self).table().len(),
            r matches Ok(e) ==> expr_syms(e, final(self).table().len()),
        decreases old(self).text().len() - old(self).pos(), 2nat,
    {
        proof {
            self.lemma_room();
        }
        match self.parse_list(Token::LeftBracket, Token::RightBracket) {
            Ok(exprs) => Ok(self.make_spanned(start, ExprKind::Array(exprs))),
            Err(e) => Err(e),
        }
    }

    /// A conditional: `if`, the condition, a block, and optionally `else`
    /// and another block.
    #[verifier::rlimit(90)]
    fn parse_if(&mut self, start: u32) -> (r: Result<Expr, ErrGuaranteed>)
        requires
            old(self).wf(),
            peek_s(old(self).text(), old(self).pos()) == TokenView::If,
        ensures
            grew(old(self).log(), final(self).log()),
            r is Err ==> old(self).log().len() < final(self).log().len(),
            ({
                let st = parse_prefix_s(old(self).text(), old(self).pos(), old(self).pstate());
                &&& final(self).state_is(old(self).text(), st.q, st.tab)
                &&& match r {
                    Ok(e) => st.res == Some(expr_v(e)),
                    Err(_) => st.res is None,
                }
            }),
            old(self).pos() < final(self).pos(),
            old(self).table().len() <= final(self).table().len(),
            r matches Ok(e) ==> expr_syms(e, final(self).table().len()),
        decreases old(self).text().len() - old(self).pos(), 2nat,
    {
        proof {
            self.lemma_room();
        }
        let ghost s = self.text();
        let ghost q = self.pos();
        proof {
            lemma_next_sig(s, q);
        }
        self.consume();
        let cond = match self.parse_expr() {
            Ok(e) => e,
            Err(e) => {
                return Err(e);
            },
        };
        let ghost n1 = self.table().len();
        let then = match self.parse_block_expr() {
            Ok(e) => e,
            Err(e) => {
                return Err(e);
            },
        };
        let ghost n2 = self.table().len();
        let ghost tq = self.pos();
        proof {
            self.lemma_room();
            lemma_next_sig(s, tq);
        }
        let els = if self.check(Token::Else) {
            match self.parse_block_expr() {
                Ok(e) => Some(Box::new(e)),
                Err(e) => {
                    return Err(e);
                },
            }
        } else {
            None
        };
        proof {
            lemma_expr_syms_mono(cond, n1, self.table().len());
            lemma_expr_syms_mono(then, n2, self.table().len());
        }
        let node = ExprKind::If { cond: Box::new(cond), then: Box::new(then), els };
        Ok(self.make_spanned(start, node))
    }

    /// A list of expressions between `start` and `terminator`, separated by
    /// commas.
    fn parse_list(&mut self, start: Token<'a>, terminator: Token<'a>) -> (r: Result<
        Vec<Expr>,
        ErrGuaranteed,
    >)
        requires
            old(self).wf(),
            plain(start@),
            plain(terminator@),
            start@ != TokenView::Eof,
        ensures
            grew(old(self).log(), final(self).log()),
            r is Err ==> old(self).log().len() < final(self).log().len(),
            ({
                let st = parse_list_s(
                    old(self).text(),
                    old(self).pos(),
                    old(self).pstate(),
                    start@,
                    terminator@,
                );
                &&& final(self).state_is(old(self).text(), st.q, st.tab)
                &&& match r {
                    Ok(v) => st.res == Some(exprs_v(v)),
                    Err(_) => st.res is None,
                }
            }),
            old(self).pos() <= final(self).pos(),
            r is Ok ==> old(self).pos() < final(self).pos(),
            old(self).table().len() <= final(self).table().len(),
            r matches Ok(v) ==> forall|i: int| 0 <= i < v@.len() ==> expr_syms(#[trigger] v@[i], final(self).table().len()),
        decreases old(self).text().len() - old(self).pos(), 1nat,
    {
        proof {
            self.lemma_room();
        }
        let ghost s = self.text();
        let ghost q = self.pos();
        let ghost tab = self.pstate();
        proof {
            lemma_next_sig(s, q);
        }
        let mut args: Vec<Expr> = Vec::new();
        if let Err(e) = self.expect(start) {
            return Err(e);
        }
        proof {
            assert(exprs_v(args) =~= Seq::<ExprV>::empty());
        }
        loop
            invariant
                grew(old(self).log(), self.log()),
                s == old(self).text(),
                q == old(self).pos(),
                tab == old(self).pstate(),
                plain(terminator@),
                self.wf(),
                self.text() == s,
                q < self.pos() <= s.len(),
                parse_list_s(s, q, tab, start@, terminator@)
                    == crate::parser::grammar::list_loop_s(
                    s,
                    self.pos(),
                    self.pstate(),
                    exprs_v(args),
                    terminator@,
                ),
                tab.syms.len() <= self.table().len(),
                forall|i: int| 0 <= i < args@.len() ==> expr_syms(#[trigger] args@[i], self.table().len()),
            decreases s.len() - self.pos(),
        {
            let ghost qc = self.pos();
            proof {
                self.lemma_room();
                lemma_next_sig(s, qc);
            }
            if same_kind(&self.peek(), &terminator) {
                self.consume();
                return Ok(args);
            }
            let ghost acc = exprs_v(args);
            let ghost n0 = self.table().len();
            let e = match self.parse_expr() {
                Ok(e) => e,
                Err(e) => {
                    return Err(e);
                },
            };
            proof {
                assert forall|i: int| 0 <= i < args@.len() implies expr_syms(
                    #[trigger] args@[i],
                    self.table().len(),
                ) by {
                    lemma_expr_syms_mono(args@[i], n0, self.table().len());
                }
            }
            args.push(e);
            proof {
                assert(exprs_v(args) =~= acc.push(expr_v(e)));
                self.lemma_room();
                lemma_next_sig(s, self.pos());
            }
            let t = self.consume().token;
            if same_kind(&t, &Token::Comma) {
            } else if same_kind(&t, &terminator) {
                return Ok(args);
            } else {
                return Err(self.unexpected_prev());
            }
        }
    }

    /// A block as an expression.
    fn parse_block_expr(&mut self) -> (r: Result<Expr, ErrGuaranteed>)
        requires
            old(self).wf(),
        ensures
            grew(old(self).log(), final(self).log()),
            r is Err ==> old(self).log().len() < final(self).log().len(),
            ({
                let st = parse_block_s(old(self).text(), old(self).pos(), old(self).pstate());
                &&& final(self).state_is(old(self).text(), st.q, st.tab)
                &&& match r {
                    Ok(e) => st.res matches Some(b) && expr_v(e) == ExprV::Block(b.0, b.1),
                    Err(_) => st.res is None,
                }
            }),
            old(self).pos() <= final(self).pos(),
            r is Ok ==> old(self).pos() < final(self).pos(),
            old(self).table().len() <= final(self).table().len(),
            r matches Ok(e) ==> expr_syms(e, final(self).table().len()),
        decreases old(self).text().len() - old(self).pos(), 1nat,
    {
        proof {
            self.lemma_room();
        }
        let start = self.curr_pos();
        let block = match self.parse_block() {
            Ok(b) => b,
            Err(e) => {
                return Err(e);
            },
        };
        let node = ExprKind::Block(block);
        Ok(self.make_spanned(start, node))
    }
}

} // verus!
