//! Reading source text: its tokens, and the syntax tree they form.
//!
//! The parser is a recursive-descent parser over the significant tokens of
//! the text (new lines are skipped). What each of its functions produces is
//! stated by the function of the same name in `grammar`, over the position
//! of the current token and the symbol table.
use vstd::prelude::*;

use crate::diagnostics::{diag_view, label_messages, label_spans, DiagView, Diagnostic, DiagnosticReporter, Level};
use crate::interner::SymTable;
use crate::parser::grammar::{adv, after, lemma_next_sig, next_sig, peek_s, PState};
use crate::parser::lexer::{lemma_skip_trivia, Token, TokenLexer, TokenView};
use crate::span::Span;
use crate::text::byte_len;

pub mod expr;
pub mod grammar;
pub mod helpers;
pub mod lexer;
pub mod program;
pub mod ty;

verus! {

/// `b` is `a` followed by error diagnostics only.
pub open spec fn grew(a: Seq<DiagView>, b: Seq<DiagView>) -> bool {
    &&& a.len() <= b.len()
    &&& forall|i: int| 0 <= i < a.len() ==> #[trigger] b[i] == a[i]
    &&& forall|i: int| a.len() <= i < b.len() ==> (#[trigger] b[i]).level == Level::Error
}

/// An error with a message and a span, and no other labels.
pub open spec fn syntax_error(message: Seq<char>, span: Span) -> DiagView {
    DiagView {
        level: Level::Error,
        message,
        span,
        label_messages: Seq::empty(),
        label_spans: Seq::empty(),
    }
}

/// An error diagnostic without secondary labels is seen as a syntax error.
pub proof fn lemma_syntax_error(d: Diagnostic)
    requires
        d.level == Level::Error,
        d.secondary@.len() == 0,
    ensures
        diag_view(d) == syntax_error(d.primary.message@, d.primary.span),
{
    assert(label_messages(d.secondary@) =~= Seq::empty());
    assert(label_spans(d.secondary@) =~= Seq::empty());
}

/// Growing by errors is transitive.
pub proof fn lemma_grew_trans(a: Seq<DiagView>, b: Seq<DiagView>, c: Seq<DiagView>)
    requires
        grew(a, b),
        grew(b, c),
    ensures
        grew(a, c),
{
    assert forall|i: int| 0 <= i < a.len() implies #[trigger] c[i] == a[i] by {
        assert(c[i] == b[i]);
    }
    assert forall|i: int| a.len() <= i < c.len() implies (#[trigger] c[i]).level == Level::Error by {
        if i < b.len() {
            assert(c[i] == b[i]);
        }
    }
}

/// A token with the span of source text it was read from.
#[derive(Clone, Copy, PartialEq, Eq, Debug)]
pub struct SpannedToken<'a> {
    pub token: Token<'a>,
    pub span: Span,
}

impl<'a> SpannedToken<'a> {
    /// A token that will not actually be consumed, nowhere in the text.
    pub fn dummy() -> (r: Self)
        ensures
            r.token == Token::<'a>::Semi,
            r.span == Span::dummy_spec(),
    {
        Self { token: Token::dummy(), span: Span::dummy() }
    }
}

/// What a parser works with besides the text: the table the names go into,
/// and the sink for diagnostics.
pub struct ParseCtx<R: DiagnosticReporter> {
    pub sym_interner: SymTable,
    /// The sink for diagnostics
    pub errors: R,
}

impl<R: DiagnosticReporter> ParseCtx<R> {
    pub fn new(sym_interner: SymTable, errors: R) -> (r: Self)
        ensures
            r.sym_interner == sym_interner,
            r.errors == errors,
    {
        Self { sym_interner, errors }
    }
}

pub struct Parser<'a, R: DiagnosticReporter> {
    /// The parsing context
    ctx: ParseCtx<R>,
    /// The lexer
    lexer: TokenLexer<'a>,
    /// The next token to be consumed
    current: SpannedToken<'a>,
    /// The previously consumed token
    previous: SpannedToken<'a>,
    /// The next node id to hand out
    node_ids: u32,
    /// Where the previously consumed token ends, in characters
    q: Ghost<int>,
}

impl<'a, R: DiagnosticReporter> Parser<'a, R> {
    /// The text being parsed.
    pub closed spec fn text(&self) -> Seq<char> {
        self.lexer.text()
    }

    /// Where the previously consumed token ends, in characters.
    pub closed spec fn pos(&self) -> int {
        self.q@
    }

    /// The symbol table.
    pub closed spec fn table(&self) -> Seq<Seq<char>> {
        self.ctx.sym_interner@
    }

    /// The previously consumed token.
    pub closed spec fn prev_token(&self) -> TokenView {
        self.previous.token@
    }

    /// What the parser has reported so far, in order.
    pub closed spec fn log(&self) -> Seq<DiagView> {
        self.ctx.errors.given()
    }

    /// Where the previously consumed token stands in the source, in bytes.
    pub closed spec fn prev_span(&self) -> Span {
        self.previous.span
    }

    /// Where the current token stands in the source, in bytes.
    pub closed spec fn current_span(&self) -> Span {
        self.current.span
    }

    /// The lexer stands after the current token, which is the first
    /// significant token after `pos()`; the symbol table holds distinct
    /// strings and has a slot left for each character not yet read.
    #[verifier::opaque]
    pub closed spec fn wf(&self) -> bool {
        let s = self.lexer.text();
        &&& 0 <= self.q@ <= s.len()
        &&& self.lexer.offset() == after(s, self.q@)
        &&& self.current.token@ == peek_s(s, self.q@)
        &&& self.ctx.sym_interner.wf()
        &&& self.ctx.sym_interner@.len() + s.len() - self.q@ <= u32::MAX + 1
        &&& byte_len(s) <= u32::MAX
    }

    /// The symbol table, and how many diagnostics the sink holds.
    pub open spec fn pstate(&self) -> PState {
        PState { syms: self.table(), errs: self.log().len() }
    }

    /// The parser is well formed and stands at `q` of `s` in state `tab`.
    pub open spec fn state_is(&self, s: Seq<char>, q: int, tab: PState) -> bool {
        &&& self.wf()
        &&& 0 <= q <= s.len()
        &&& self.text() == s
        &&& self.pos() == q
        &&& self.pstate() == tab
    }

    pub fn new(ctx: ParseCtx<R>, src: &'a str) -> (r: Self)
        requires
            byte_len(src@) <= u32::MAX,
            ctx.sym_interner.wf(),
            ctx.sym_interner@.len() + src@.len() <= u32::MAX + 1,
        ensures
            r.log() == ctx.errors.given(),
            r.state_is(src@, 0, PState { syms: ctx.sym_interner@, errs: ctx.errors.given().len() }),
    {
        let lexer = Token::lexer(src);
        let mut parser = Self {
            ctx,
            lexer,
            current: SpannedToken::dummy(),
            previous: SpannedToken::dummy(),
            node_ids: 0,
            q: Ghost(0),
        };
        proof {
            lemma_skip_trivia(src@, 0);
        }
        parser.read_current(Ghost(0));
        proof {
            reveal(Parser::wf);
        }
        parser
    }

    /// The text is no longer than a byte offset can count, and the table has
    /// a slot left for each character not yet read.
    pub proof fn lemma_room(&self)
        requires
            self.wf(),
        ensures
            0 <= self.pos() <= self.text().len(),
            self.table().len() + self.text().len() - self.pos() <= u32::MAX + 1,
            byte_len(self.text()) <= u32::MAX,
    {
        reveal(Parser::wf);
    }

    /// Gives back the context, with the names and diagnostics added.
    pub fn finish(self) -> (r: ParseCtx<R>)
        requires
            self.wf(),
        ensures
            r.errors.given() == self.log(),
            r.sym_interner@ == self.table(),
            r.sym_interner.wf(),
            r.sym_interner@.len() <= u32::MAX + 1,
    {
        proof {
            reveal(Parser::wf);
        }
        self.ctx
    }

    /// Reads the first significant token after `q` into `current`, the lexer
    /// standing at a place from which it is the next one.
    fn read_current(&mut self, Ghost(q): Ghost<int>)
        requires
            0 <= q <= old(self).text().len(),
            q <= old(self).lexer.offset() <= old(self).text().len(),
            next_sig(old(self).text(), old(self).lexer.offset() as int) == next_sig(
                old(self).text(),
                q,
            ),
        ensures
            final(self).lexer.text() == old(self).lexer.text(),
            final(self).lexer.offset() == after(old(self).text(), q),
            final(self).current.token@ == peek_s(old(self).text(), q),
            final(self).ctx == old(self).ctx,
            final(self).previous == old(self).previous,
            final(self).node_ids == old(self).node_ids,
            final(self).q == old(self).q,
    {
        let ghost s = self.lexer.text();
        let prev_end = self.previous.span.end;
        loop
            invariant
                s == old(self).lexer.text(),
                self.lexer.text() == s,
                q <= self.lexer.offset() <= s.len(),
                next_sig(s, self.lexer.offset() as int) == next_sig(s, q),
                self.ctx == old(self).ctx,
                self.previous == old(self).previous,
                self.node_ids == old(self).node_ids,
                self.q == old(self).q,
                0 <= q <= s.len(),
            decreases s.len() - self.lexer.offset(),
        {
            let ghost off = self.lexer.offset() as int;
            proof {
                lemma_skip_trivia(s, off);
                lemma_next_sig(s, off);
            }
            match self.lexer.next_spanned() {
                Some((Ok(token), span)) => {
                    proof {
                        crate::parser::lexer::lemma_token_at_bounds(
                            s,
                            crate::parser::lexer::skip_trivia(s, off),
                        );
                    }
                    if let Token::Newline = token {
                    } else {
                        self.current = SpannedToken { token, span };
                        return ;
                    }
                },
                Some((Err(_), span)) => {
                    self.current = SpannedToken { token: Token::Error('\0'), span };
                    return ;
                },
                None => {
                    self.current = SpannedToken { token: Token::Eof, span: Span::new(prev_end, prev_end) };
                    return ;
                },
            }
        }
    }
}

} // verus!
