//! Diagnostics handed to a handler through a diagnostic context.
use vstd::prelude::*;

use crate::span::Span;

verus! {

#[derive(Clone, Debug)]
pub struct Diagnostic {
    pub level: Level,
    pub message: String,
    pub labels: Vec<Label>,
}

#[derive(Clone, Copy, PartialEq, Eq, Structural, PartialOrd, Ord, Debug)]
pub enum Level {
    Warning,
    Error,
}

#[derive(Clone, Debug)]
pub struct Label {
    pub span: Span,
    pub primary: bool,
    pub message: Option<String>,
}

impl Diagnostic {
    /// An error with one primary label, without a message of its own.
    pub fn error(msg: &str, span: Span) -> (r: Self)
        ensures
            r.level == Level::Error,
            r.message@ == msg@,
            r.labels@.len() == 1,
            r.labels@[0].span == span,
            r.labels@[0].primary,
            r.labels@[0].message is None,
    {
        let mut labels: Vec<Label> = Vec::new();
        labels.push(Label { span, primary: true, message: None });
        Diagnostic { level: Level::Error, message: msg.to_owned(), labels }
    }
}

/// Something that takes diagnostics.
pub trait DiagnosticHandler {
    /// What the handler has been given, in order.
    spec fn emitted(&self) -> Seq<Diagnostic>;

    fn emit(&mut self, diag: Diagnostic)
        ensures
            final(self).emitted() == old(self).emitted().push(diag);
}

/// Passes diagnostics on to a handler.
pub struct DiagCtx<H: DiagnosticHandler> {
    handler: H,
}

impl<H: DiagnosticHandler> DiagCtx<H> {
    pub fn new(handler: H) -> (r: Self)
        ensures
            r.handler() == handler,
    {
        Self { handler }
    }

    /// The handler that diagnostics are passed to.
    pub closed spec fn handler(&self) -> H {
        self.handler
    }

    pub fn emit(&mut self, diag: Diagnostic)
        ensures
            final(self).handler().emitted() == old(self).handler().emitted().push(diag),
    {
        self.handler.emit(diag)
    }

    /// Gives the handler back.
    pub fn into_handler(self) -> (r: H)
        ensures
            r == self.handler(),
    {
        self.handler
    }
}

/// A handler that keeps what it is given, in order.
#[derive(Default, Debug)]
pub struct Diagnostics {
    pub diagnostics: Vec<Diagnostic>,
}

impl Diagnostics {
    pub fn new() -> (r: Self)
        ensures
            r.diagnostics@.len() == 0,
    {
        Diagnostics { diagnostics: Vec::new() }
    }
}

impl DiagnosticHandler for Diagnostics {
    open spec fn emitted(&self) -> Seq<Diagnostic> {
        self.diagnostics@
    }

    fn emit(&mut self, diag: Diagnostic)
        ensures
            final(self).diagnostics@ == old(self).diagnostics@.push(diag),
    {
        self.diagnostics.push(diag);
    }
}

} // verus!
