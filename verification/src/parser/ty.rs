//! Parsing of written types.
use vstd::prelude::*;

use crate::ast::{Ty, TyKind};
use crate::ast::sexpr::{lemma_ty_syms_mono, ty_syms};
use crate::diagnostics::{DiagnosticReporter, ErrGuaranteed};
use crate::parser::grammar::{adv, lemma_next_sig, parse_ty_base_s, parse_ty_s, peek_s, ty_elems_s, ty_v, TyV};
use crate::parser::helpers::same_kind;
use crate::parser::lexer::{Token, TokenView};
use crate::parser::{grew, Parser};
use crate::span::Span;

verus! {

/// The views of a list of written types.
pub open spec fn tys_v(ts: Seq<Ty>) -> Seq<TyV> {
    Seq::new(ts.len(), |i: int| ty_v(ts[i]))
}

/// The view of a written tuple type is the tuple of the views of its
/// elements.
pub proof fn lemma_tuple_v(t: Ty)
    requires
        t.node is Tuple,
    ensures
        ty_v(t) == TyV::Tuple(tys_v(t.node->Tuple_0@)),
{
    let v = t.node->Tuple_0;
    let x = ty_v(t)->Tuple_0;
    assert(ty_v(t) is Tuple);
    assert(x =~= tys_v(v@));
}

impl<'a, R: DiagnosticReporter> Parser<'a, R> {
    /// The elements of a parenthesised list of types, up to its `)`, and
    /// whether the last one was followed by a comma.
    fn parse_ty_elems(&mut self) -> (r: Result<(Vec<Ty>, bool), ErrGuaranteed>)
        requires
            old(self).wf(),
        ensures
            grew(old(self).log(), final(self).log()),
            r is Err ==> old(self).log().len() < final(self).log().len(),
            ({
                let st = ty_elems_s(
                    old(self).text(),
                    old(self).pos(),
                    old(self).pstate(),
                    Seq::empty(),
                    false,
                );
                &&& final(self).state_is(old(self).text(), st.q, st.tab)
                &&& match r {
                    Ok((v, tr)) => st.res == Some((tys_v(v@), tr)),
                    Err(_) => st.res is None,
                }
            }),
            old(self).pos() <= final(self).pos(),
            old(self).table().len() <= final(self).table().len(),
            r matches Ok((v, _)) ==> forall|i: int| 0 <= i < v@.len() ==> ty_syms(#[trigger] v@[i], final(self).table().len()),
        decreases old(self).text().len() - old(self).pos(), 2nat,
    {
        proof {
            self.lemma_room();
        }
        let ghost s = self.text();
        let ghost q = self.pos();
        let ghost tab = self.pstate();
        let mut elements: Vec<Ty> = Vec::new();
        let mut trailing_comma = false;
        proof {
            assert(tys_v(elements@) =~= Seq::<TyV>::empty());
        }
        while !same_kind(&self.peek(), &Token::RightParen)
            invariant
                grew(old(self).log(), self.log()),
                s == old(self).text(),
                q == old(self).pos(),
                tab == old(self).pstate(),
                self.wf(),
                self.text() == s,
                q <= self.pos() <= s.len(),
                ty_elems_s(s, q, tab, Seq::empty(), false) == ty_elems_s(
                    s,
                    self.pos(),
                    self.pstate(),
                    tys_v(elements@),
                    trailing_comma,
                ),
                tab.syms.len() <= self.table().len(),
                forall|i: int|
                    0 <= i < elements@.len() ==> ty_syms(#[trigger] elements@[i], self.table().len()),
            decreases s.len() - self.pos(),
        {
            let ghost acc = tys_v(elements@);
            let ghost n0 = self.table().len();
            let t = match self.parse_ty() {
                Ok(t) => t,
                Err(e) => {
                    return Err(e);
                },
            };
            proof {
                assert forall|i: int| 0 <= i < elements@.len() implies ty_syms(
                    #[trigger] elements@[i],
                    self.table().len(),
                ) by {
                    lemma_ty_syms_mono(elements@[i], n0, self.table().len());
                }
            }
            elements.push(t);
            trailing_comma = self.consume_if(Token::Comma).is_some();
            proof {
                assert(tys_v(elements@) =~= acc.push(ty_v(t)));
            }
        }
        Ok((elements, trailing_comma))
    }

    /// A type: a name, `[T]`, or a parenthesised list of types, with an
    /// optional `?` after it.
    pub fn parse_ty(&mut self) -> (r: Result<Ty, ErrGuaranteed>)
        requires
            old(self).wf(),
        ensures
            grew(old(self).log(), final(self).log()),
            r is Err ==> old(self).log().len() < final(self).log().len(),
            ({
                let st = parse_ty_s(old(self).text(), old(self).pos(), old(self).pstate());
                &&& final(self).state_is(old(self).text(), st.q, st.tab)
                &&& match r {
                    Ok(t) => st.res == Some(ty_v(t)),
                    Err(_) => st.res is None,
                }
            }),
            old(self).pos() <= final(self).pos(),
            r is Ok ==> old(self).pos() < final(self).pos(),
            old(self).table().len() <= final(self).table().len(),
            r matches Ok(t) ==> ty_syms(t, final(self).table().len()),
        decreases old(self).text().len() - old(self).pos(), 1nat,
    {
        proof {
            self.lemma_room();
        }
        let ty = match self.parse_ty_base() {
            Ok(t) => t,
            Err(e) => {
                return Err(e);
            },
        };
        let ghost bq = self.pos();
        proof {
            self.lemma_room();
            lemma_next_sig(self.text(), bq);
        }
        if let Some(token) = self.consume_if(Token::Question) {
            let id = self.next_id();
            let span = Span::new(ty.span.start, token.span.end);
            return Ok(Ty { id, node: TyKind::Nullable(Box::new(ty)), span });
        }
        Ok(ty)
    }

    /// A type without a `?` after it.
    fn parse_ty_base(&mut self) -> (r: Result<Ty, ErrGuaranteed>)
        requires
            old(self).wf(),
        ensures
            grew(old(self).log(), final(self).log()),
            r is Err ==> old(self).log().len() < final(self).log().len(),
            ({
                let st = parse_ty_base_s(old(self).text(), old(self).pos(), old(self).pstate());
                &&& final(self).state_is(old(self).text(), st.q, st.tab)
                &&& match r {
                    Ok(t) => st.res == Some(ty_v(t)),
                    Err(_) => st.res is None,
                }
            }),
            old(self).pos() <= final(self).pos(),
            r is Ok ==> old(self).pos() < final(self).pos(),
            old(self).table().len() <= final(self).table().len(),
            r matches Ok(t) ==> ty_syms(t, final(self).table().len()),
        decreases old(self).text().len() - old(self).pos(), 0nat,
    {
        proof {
            self.lemma_room();
        }
        let ghost s = self.text();
        let ghost q = self.pos();
        let ghost tab = self.pstate();
        proof {
            lemma_next_sig(s, q);
        }
        let start = self.curr_pos();
        let ty = match self.peek() {
            Token::Ident(_) => {
                match self.parse_ident() {
                    Ok(ident) => self.make_spanned(start, TyKind::Var(ident)),
                    Err(e) => {
                        return Err(e);
                    },
                }
            },
            Token::LeftBracket => {
                self.consume();
                let inner = match self.parse_ty() {
                    Ok(t) => t,
                    Err(e) => {
                        return Err(e);
                    },
                };
                if let Err(e) = self.expect(Token::RightBracket) {
                    return Err(e);
                }
                self.make_spanned(start, TyKind::Array(Box::new(inner)))
            },
            Token::LeftParen => {
                self.consume();
                let (mut elements, trailing_comma) = match self.parse_ty_elems() {
                    Ok(x) => x,
                    Err(e) => {
                        return Err(e);
                    },
                };
                if let Err(e) = self.expect(Token::RightParen) {
                    return Err(e);
                }
                if elements.len() == 1 && !trailing_comma {
                    let t = elements.pop().unwrap();
                    t
                } else {
                    let ghost els = tys_v(elements@);
                    let t = self.make_spanned(start, TyKind::Tuple(elements));
                    proof {
                        lemma_tuple_v(t);
                    }
                    t
                }
            },
            _ => {
                return Err(self.unexpected_prev());
            },
        };
        Ok(ty)
    }
}

} // verus!
