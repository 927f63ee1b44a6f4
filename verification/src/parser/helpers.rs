//! The parser's access to the token stream, the symbol table and the
//! diagnostics sink.
use vstd::prelude::*;

use crate::ast::{NodeId, Symbol};
use crate::diagnostics::{diag_view, Diagnostic, DiagnosticReporter, ErrGuaranteed, Level};
use crate::interner::Index;
use crate::parser::grammar::{adv, bump, intern_p, intern_s, lemma_next_sig, next_sig, peek_s};
use crate::parser::lexer::{token_name, Token, TokenView};
use crate::parser::{grew, lemma_syntax_error, syntax_error, Parser, SpannedToken};
use crate::span::{Span, Spanned};
use crate::text::push_str;

verus! {

/// A token that carries no text of its own.
pub open spec fn plain(t: TokenView) -> bool {
    !(t is Ident) && !(t is Tag) && !(t is Number) && !(t is Str) && !(t is Error)
}

/// Whether a token is the given token without text.
pub fn same_kind(a: &Token, b: &Token) -> (r: bool)
    requires
        plain(b@),
    ensures
        r == (a@ == b@),
{
    match (a, b) {
        (Token::Null, Token::Null) => true,
        (Token::True, Token::True) => true,
        (Token::False, Token::False) => true,
        (Token::Func, Token::Func) => true,
        (Token::Let, Token::Let) => true,
        (Token::Var, Token::Var) => true,
        (Token::If, Token::If) => true,
        (Token::Else, Token::Else) => true,
        (Token::Underscore, Token::Underscore) => true,
        (Token::LeftParen, Token::LeftParen) => true,
        (Token::RightParen, Token::RightParen) => true,
        (Token::LeftBrace, Token::LeftBrace) => true,
        (Token::RightBrace, Token::RightBrace) => true,
        (Token::LeftBracket, Token::LeftBracket) => true,
        (Token::RightBracket, Token::RightBracket) => true,
        (Token::Plus, Token::Plus) => true,
        (Token::Minus, Token::Minus) => true,
        (Token::Asterisk, Token::Asterisk) => true,
        (Token::Solidus, Token::Solidus) => true,
        (Token::Bang, Token::Bang) => true,
        (Token::Eq, Token::Eq) => true,
        (Token::EqEq, Token::EqEq) => true,
        (Token::BangEq, Token::BangEq) => true,
        (Token::Lt, Token::Lt) => true,
        (Token::LtEq, Token::LtEq) => true,
        (Token::Gt, Token::Gt) => true,
        (Token::GtEq, Token::GtEq) => true,
        (Token::Comma, Token::Comma) => true,
        (Token::Semi, Token::Semi) => true,
        (Token::Colon, Token::Colon) => true,
        (Token::Question, Token::Question) => true,
        (Token::ThinArrow, Token::ThinArrow) => true,
        (Token::FatArrow, Token::FatArrow) => true,
        (Token::Newline, Token::Newline) => true,
        (Token::Comment, Token::Comment) => true,
        (Token::Eof, Token::Eof) => true,
        _ => false,
    }
}

impl<'a, R: DiagnosticReporter> Parser<'a, R> {
    /// The parser stands where it stood, but for the node ids it hands out.
    pub open spec fn same_state(&self, other: &Self) -> bool {
        self.state_is(other.text(), other.pos(), other.pstate())
    }

    pub fn make_symbol(&mut self, raw: &str) -> (r: Symbol)
        requires
            old(self).wf(),
            old(self).table().len() + old(self).text().len() - old(self).pos() <= u32::MAX,
        ensures
            final(self).log() == old(self).log(),
            final(self).state_is(
                old(self).text(),
                old(self).pos(),
                intern_p(old(self).pstate(), raw@).1,
            ),
            r.index_of() == intern_s(old(self).table(), raw@).0,
            r.index_of() < final(self).table().len(),
            old(self).table().len() <= final(self).table().len(),
    {
        proof {
            reveal(Parser::wf);
        }
        let ghost tab = self.ctx.sym_interner@;
        let r: Symbol = self.ctx.sym_interner.intern_str(raw);
        proof {
            if tab.contains(raw@) {
                let k = tab.index_of(raw@);
                assert(0 <= k < tab.len() && tab[k] == raw@);
                assert(k == r.index_of());
            }
        }
        r
    }

    /// The byte offset where the current token starts.
    pub fn curr_pos(&self) -> (r: u32)
        ensures
            r == self.current_span().start,
    {
        self.current.span.start
    }

    pub fn make_span(&self, start: u32) -> (r: Span)
        ensures
            r.start == start,
    {
        Span::new(start, self.curr_pos())
    }

    /// A fresh node id.
    pub fn next_id(&mut self) -> (r: NodeId)
        requires
            old(self).wf(),
        ensures
            final(self).log() == old(self).log(),
            final(self).same_state(old(self)),
    {
        proof {
            reveal(Parser::wf);
        }
        let id = NodeId(self.node_ids);
        self.node_ids = self.node_ids.wrapping_add(1);
        id
    }

    pub fn make_spanned<T>(&mut self, start: u32, node: T) -> (r: Spanned<T>)
        requires
            old(self).wf(),
        ensures
            final(self).log() == old(self).log(),
            final(self).same_state(old(self)),
            r.node == node,
    {
        let id = self.next_id();
        let span = self.make_span(start);
        Spanned { id, node, span }
    }

    /// Returns the current token without consuming it
    pub fn peek(&self) -> (r: Token<'a>)
        requires
            self.wf(),
        ensures
            r@ == peek_s(self.text(), self.pos()),
    {
        proof {
            reveal(Parser::wf);
        }
        self.current.token
    }

    /// Consumes the current token and returns it
    pub fn consume(&mut self) -> (r: SpannedToken<'a>)
        requires
            old(self).wf(),
        ensures
            r.span == old(self).current_span(),
            final(self).prev_span() == old(self).current_span(),
            final(self).log() == old(self).log(),
            final(self).state_is(
                old(self).text(),
                adv(old(self).text(), old(self).pos()),
                old(self).pstate(),
            ),
            r.token@ == peek_s(old(self).text(), old(self).pos()),
            final(self).prev_token() == peek_s(old(self).text(), old(self).pos()),
            old(self).pos() <= final(self).pos(),
            peek_s(old(self).text(), old(self).pos()) != TokenView::Eof ==> old(self).pos()
                < final(self).pos(),
    {
        proof {
            reveal(Parser::wf);
        }
        let ghost s = self.text();
        let ghost q = self.pos();
        proof {
            lemma_next_sig(s, q);
            crate::parser::lexer::lemma_skip_trivia(s, s.len() as int);
        }
        self.previous = self.current;
        let ghost q1 = adv(s, q);
        proof {
            lemma_next_sig(s, q1);
        }
        self.read_current(Ghost(q1));
        self.q = Ghost(q1);
        self.previous
    }

    /// Reports an error.
    pub fn report_err(&mut self, diagnostic: Diagnostic) -> (r: ErrGuaranteed)
        requires
            old(self).wf(),
            diagnostic.level == Level::Error,
        ensures
            final(self).log() == old(self).log().push(diag_view(diagnostic)),
            final(self).state_is(old(self).text(), old(self).pos(), bump(old(self).pstate())),
    {
        proof {
            reveal(Parser::wf);
        }
        self.ctx.errors.report_err(diagnostic)
    }

    /// Reports a warning or an error.
    pub fn report(&mut self, diagnostic: Diagnostic)
        requires
            old(self).wf(),
        ensures
            final(self).log() == old(self).log().push(diag_view(diagnostic)),
            final(self).state_is(old(self).text(), old(self).pos(), bump(old(self).pstate())),
    {
        proof {
            reveal(Parser::wf);
        }
        self.ctx.errors.report(diagnostic)
    }

    /// Reports the current token as unexpected.
    pub fn unexpected_curr(&mut self) -> (r: ErrGuaranteed)
        requires
            old(self).wf(),
        ensures
            final(self).log() == old(self).log().push(syntax_error("unexpected "@ + token_name(peek_s(old(self).text(), old(self).pos())), old(self).current_span())),
            final(self).log().len() == old(self).log().len() + 1,
            grew(old(self).log(), final(self).log()),
            final(self).state_is(old(self).text(), old(self).pos(), bump(old(self).pstate())),
    {
        proof {
            reveal(Parser::wf);
        }
        let mut msg = String::new();
        push_str(&mut msg, "unexpected ");
        push_str(&mut msg, self.current.token.to_string().as_str());
        assert(msg@ =~= "unexpected "@ + token_name(self.current.token@));
        let diagnostic = Diagnostic::error(msg.as_str(), self.current.span);
        proof {
            lemma_syntax_error(diagnostic);
        }
        self.report_err(diagnostic)
    }

    /// Reports the token just consumed as unexpected.
    pub fn unexpected_prev(&mut self) -> (r: ErrGuaranteed)
        requires
            old(self).wf(),
        ensures
            final(self).log() == old(self).log().push(syntax_error("unexpected "@ + token_name(old(self).prev_token()), old(self).prev_span())),
            final(self).log().len() == old(self).log().len() + 1,
            grew(old(self).log(), final(self).log()),
            final(self).state_is(old(self).text(), old(self).pos(), bump(old(self).pstate())),
    {
        proof {
            reveal(Parser::wf);
        }
        let mut msg = String::new();
        push_str(&mut msg, "unexpected ");
        push_str(&mut msg, self.previous.token.to_string().as_str());
        assert(msg@ =~= "unexpected "@ + token_name(self.previous.token@));
        let diagnostic = Diagnostic::error(msg.as_str(), self.previous.span);
        proof {
            lemma_syntax_error(diagnostic);
        }
        self.report_err(diagnostic)
    }

    /// Whether a statement may end after the token just consumed.
    pub fn should_insert_semi(&self) -> (r: bool)
        ensures
            r == (self.prev_token() is Ident || self.prev_token() is Null || self.prev_token() is False
                || self.prev_token() is True || self.prev_token() is Number
                || self.prev_token() is Str || self.prev_token() is RightParen
                || self.prev_token() is RightBracket || self.prev_token() is RightBrace),
    {
        match self.previous.token {
            Token::Ident(_) => true,
            Token::Null => true,
            Token::False | Token::True => true,
            Token::Number(_) => true,
            Token::Str(_) => true,
            Token::RightParen => true,
            Token::RightBracket => true,
            Token::RightBrace => true,
            _ => false,
        }
    }

    /// Consumes the current token, checks that it matches the expected token, and returns it
    pub fn expect(&mut self, expected: Token<'a>) -> (r: Result<SpannedToken<'a>, ErrGuaranteed>)
        requires
            old(self).wf(),
            plain(expected@),
        ensures
            r is Err ==> final(self).log() == old(self).log().push(syntax_error("expected "@ + token_name(expected@), old(self).current_span())),
            grew(old(self).log(), final(self).log()),
            r is Err ==> old(self).log().len() < final(self).log().len(),
            r is Ok ==> final(self).log() == old(self).log(),
            final(self).state_is(
                old(self).text(),
                adv(old(self).text(), old(self).pos()),
                if r is Ok {
                    old(self).pstate()
                } else {
                    bump(old(self).pstate())
                },
            ),
            r is Ok <==> peek_s(old(self).text(), old(self).pos()) == expected@,
            old(self).pos() <= final(self).pos(),
            r is Ok && expected@ != TokenView::Eof ==> old(self).pos() < final(self).pos(),
    {
        proof {
            reveal(Parser::wf);
        }
        let token = self.consume();
        if !same_kind(&token.token, &expected) {
            let mut msg = String::new();
            push_str(&mut msg, "expected ");
            push_str(&mut msg, expected.to_string().as_str());
            assert(msg@ =~= "expected "@ + token_name(expected@));
            let diagnostic = Diagnostic::error(msg.as_str(), token.span);
            proof {
                lemma_syntax_error(diagnostic);
            }
            return Err(self.report_err(diagnostic));
        }
        Ok(token)
    }

    /// Checks whether the next token is `tok`, and if so, consumes and returns it
    pub fn consume_if(&mut self, tok: Token<'a>) -> (r: Option<SpannedToken<'a>>)
        requires
            old(self).wf(),
            plain(tok@),
        ensures
            final(self).log() == old(self).log(),
            r is Some <==> peek_s(old(self).text(), old(self).pos()) == tok@,
            r is Some ==> final(self).state_is(
                old(self).text(),
                adv(old(self).text(), old(self).pos()),
                old(self).pstate(),
            ),
            r is None ==> final(self).same_state(old(self)),
            old(self).pos() <= final(self).pos(),
            r is Some && tok@ != TokenView::Eof ==> old(self).pos() < final(self).pos(),
    {
        proof {
            reveal(Parser::wf);
        }
        if same_kind(&self.current.token, &tok) {
            Some(self.consume())
        } else {
            None
        }
    }

    /// Checks whether the next token is `tok`, and if so, consumes it
    pub fn check(&mut self, tok: Token<'a>) -> (r: bool)
        requires
            old(self).wf(),
            plain(tok@),
        ensures
            final(self).log() == old(self).log(),
            r <==> peek_s(old(self).text(), old(self).pos()) == tok@,
            r ==> final(self).state_is(
                old(self).text(),
                adv(old(self).text(), old(self).pos()),
                old(self).pstate(),
            ),
            !r ==> final(self).same_state(old(self)),
            old(self).pos() <= final(self).pos(),
            r && tok@ != TokenView::Eof ==> old(self).pos() < final(self).pos(),
    {
        self.consume_if(tok).is_some()
    }
}

} // verus!
