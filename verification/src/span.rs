//! Byte ranges of the source text.
use vstd::prelude::*;

use crate::ast::NodeId;

verus! {

/// A byte offset into the source text.
pub type BytePos = u32;

/// The bytes `start..end` of the source text.
#[derive(Clone, Copy, PartialEq, Eq, Structural, Hash, Debug)]
pub struct Span {
    pub start: BytePos,
    pub end: BytePos,
}

impl Span {
    pub fn new(start: BytePos, end: BytePos) -> (r: Span)
        ensures
            r.start == start,
            r.end == end,
    {
        Span { start, end }
    }

    /// The span that points nowhere in particular.
    pub open spec fn dummy_spec() -> Span {
        Span { start: 0, end: 0 }
    }

    /// A span that points nowhere in particular.
    pub fn dummy() -> (r: Span)
        ensures
            r == Span::dummy_spec(),
    {
        Span { start: 0, end: 0 }
    }

    pub fn start(&self) -> (r: BytePos)
        ensures
            r == self.start,
    {
        self.start
    }

    pub fn end(&self) -> (r: BytePos)
        ensures
            r == self.end,
    {
        self.end
    }
}

impl Default for Span {
    /// The empty span at the start of the text.
    fn default() -> (r: Span)
        ensures
            r.start == 0,
            r.end == 0,
    {
        Span { start: 0, end: 0 }
    }
}

/// A node of the syntax tree, with its id and the span of source text it
/// came from.
#[derive(Debug)]
pub struct Spanned<T> {
    pub id: NodeId,
    pub node: T,
    pub span: Span,
}

} // verus!
