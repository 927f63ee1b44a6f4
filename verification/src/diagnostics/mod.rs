//! Diagnostics: messages with source labels, and the sinks that collect them.
use vstd::prelude::*;

use crate::span::Span;

pub mod handler;

verus! {

/// A sink for diagnostics.
pub trait DiagnosticReporter {
    /// What the sink has been given, in order.
    spec fn given(&self) -> Seq<DiagView>;

    fn report(&mut self, diagnostic: Diagnostic)
        ensures
            final(self).given() == old(self).given().push(diag_view(diagnostic));

    /// Reports an error, and gives the evidence that one was reported.
    fn report_err(&mut self, diagnostic: Diagnostic) -> (r: ErrGuaranteed)
        requires
            diagnostic.level == Level::Error,
        ensures
            final(self).given() == old(self).given().push(diag_view(diagnostic)),
    {
        self.report(diagnostic);
        ErrGuaranteed(())
    }
}

#[derive(Clone, Debug)]
pub struct Diagnostic {
    pub level: Level,
    pub primary: Label,
    pub secondary: Vec<Label>,
    pub notes: Vec<String>,
}

#[derive(Clone, Debug)]
pub struct Label {
    pub message: String,
    pub span: Span,
}

/// The message texts of a list of labels.
pub open spec fn label_messages(ls: Seq<Label>) -> Seq<Seq<char>> {
    ls.map_values(|l: Label| l.message@)
}

/// The spans of a list of labels.
pub open spec fn label_spans(ls: Seq<Label>) -> Seq<Span> {
    ls.map_values(|l: Label| l.span)
}

/// The texts of a list of notes.
pub open spec fn note_texts(ns: Seq<String>) -> Seq<Seq<char>> {
    ns.map_values(|n: String| n@)
}

impl Diagnostic {
    pub fn new(level: Level, message: &str, span: Span) -> (r: Self)
        ensures
            r.level == level,
            r.primary.message@ == message@,
            r.primary.span == span,
            r.secondary@.len() == 0,
            r.notes@.len() == 0,
    {
        let primary = Label { message: message.to_owned(), span };
        Self { level, primary, secondary: Vec::new(), notes: Vec::new() }
    }

    pub fn error(message: &str, span: Span) -> (r: Self)
        ensures
            r.level == Level::Error,
            r.primary.message@ == message@,
            r.primary.span == span,
            r.secondary@.len() == 0,
            r.notes@.len() == 0,
    {
        Self::new(Level::Error, message, span)
    }

    /// A diagnostic at the level the reporters treat as an error.
    pub fn warning(message: &str, span: Span) -> (r: Self)
        ensures
            r.level == Level::Error,
            r.primary.message@ == message@,
            r.primary.span == span,
            r.secondary@.len() == 0,
            r.notes@.len() == 0,
    {
        Self::new(Level::Error, message, span)
    }

    /// Adds a secondary label.
    pub fn with_label(self, message: &str, span: Span) -> (r: Self)
        ensures
            r.level == self.level,
            r.primary == self.primary,
            label_messages(r.secondary@) == label_messages(self.secondary@).push(message@),
            label_spans(r.secondary@) == label_spans(self.secondary@).push(span),
            r.notes == self.notes,
    {
        let mut d = self;
        d.secondary.push(Label { message: message.to_owned(), span });
        proof {
            assert(label_messages(d.secondary@) =~= label_messages(self.secondary@).push(message@));
            assert(label_spans(d.secondary@) =~= label_spans(self.secondary@).push(span));
        }
        d
    }

    /// Adds a note.
    pub fn with_note(self, note: &str) -> (r: Self)
        ensures
            r.level == self.level,
            r.primary == self.primary,
            r.secondary == self.secondary,
            note_texts(r.notes@) == note_texts(self.notes@).push(note@),
    {
        let mut d = self;
        d.notes.push(note.to_owned());
        proof {
            assert(note_texts(d.notes@) =~= note_texts(self.notes@).push(note@));
        }
        d
    }

    pub fn is_error(&self) -> (r: bool)
        ensures
            r == (self.level == Level::Error),
    {
        match self.level {
            Level::Error => true,
            Level::Warning => false,
        }
    }
}

#[derive(Clone, Copy, PartialEq, Eq, Structural, Debug)]
pub enum Level {
    Warning,
    Error,
}

/// Evidence that an error diagnostic has been reported.
#[derive(Clone, Copy, Debug, PartialEq, Eq, Hash)]
pub struct ErrGuaranteed(());

/// Evidence of a reported error, in statements about results.
pub closed spec fn some_err() -> ErrGuaranteed {
    ErrGuaranteed(())
}

/// All evidence of a reported error is alike.
pub proof fn lemma_err_unique(a: ErrGuaranteed, b: ErrGuaranteed)
    ensures
        a == b,
{
}

/// What a diagnostic says: its level, its message and span, and the
/// messages and spans of its secondary labels.
pub struct DiagView {
    pub level: Level,
    pub message: Seq<char>,
    pub span: Span,
    pub label_messages: Seq<Seq<char>>,
    pub label_spans: Seq<Span>,
}

pub open spec fn diag_view(d: Diagnostic) -> DiagView {
    DiagView {
        level: d.level,
        message: d.primary.message@,
        span: d.primary.span,
        label_messages: label_messages(d.secondary@),
        label_spans: label_spans(d.secondary@),
    }
}

/// A reporter that drops what it is given; only proofs see what that was.
#[derive(Clone, Copy)]
pub struct DummyReporter {
    dropped: Ghost<Seq<DiagView>>,
}

impl DiagnosticReporter for DummyReporter {
    closed spec fn given(&self) -> Seq<DiagView> {
        self.dropped@
    }

    fn report(&mut self, diagnostic: Diagnostic) {
        self.dropped = Ghost(self.dropped@.push(diag_view(diagnostic)));
    }
}

/// A reporter for places where diagnostics are not looked at.
pub fn dummy_reporter() -> (r: DummyReporter)
    ensures
        r.given() == Seq::<DiagView>::empty(),
{
    DummyReporter { dropped: Ghost(Seq::empty()) }
}

/// The number of errors among the levels of a list of diagnostics.
pub open spec fn count_errors(ds: Seq<Diagnostic>) -> nat
    decreases ds.len(),
{
    if ds.len() == 0 {
        0
    } else {
        count_errors(ds.drop_last()) + if ds.last().level == Level::Error {
            1nat
        } else {
            0nat
        }
    }
}

proof fn lemma_count_errors_bound(ds: Seq<Diagnostic>)
    ensures
        count_errors(ds) <= ds.len(),
    decreases ds.len(),
{
    if ds.len() > 0 {
        lemma_count_errors_bound(ds.drop_last());
    }
}

/// A reporter that keeps what it is given, in order.
///
/// It owns its list: a clone is a copy of what was reported so far, and
/// what is reported to one copy afterwards is not seen by the other. Code
/// that needs one shared list passes the reporter along by `&mut` or by
/// value, as the front end does.
#[derive(Default, Clone, Debug)]
pub struct VecReporter {
    pub diagnostics: Vec<Diagnostic>,
}

impl VecReporter {
    pub fn new() -> (r: Self)
        ensures
            r.diagnostics@.len() == 0,
    {
        VecReporter { diagnostics: Vec::new() }
    }

    /// The number of errors reported so far.
    pub fn num_errors(&self) -> (r: usize)
        ensures
            r == count_errors(self.diagnostics@),
    {
        let mut n: usize = 0;
        let mut i: usize = 0;
        while i < self.diagnostics.len()
            invariant
                i <= self.diagnostics.len(),
                n == count_errors(self.diagnostics@.take(i as int)),
            decreases self.diagnostics.len() - i,
        {
            proof {
                assert(self.diagnostics@.take(i as int + 1).drop_last() =~= self.diagnostics@.take(
                    i as int,
                ));
                lemma_count_errors_bound(self.diagnostics@.take(i as int));
            }
            if self.diagnostics[i].is_error() {
                n = n + 1;
            }
            i = i + 1;
        }
        proof {
            assert(self.diagnostics@.take(i as int) =~= self.diagnostics@);
        }
        n
    }

    /// Takes out everything reported so far.
    pub fn into_errors(&mut self) -> (r: Vec<Diagnostic>)
        ensures
            r@ == old(self).diagnostics@,
            final(self).diagnostics@.len() == 0,
    {
        let mut taken: Vec<Diagnostic> = Vec::new();
        std::mem::swap(&mut taken, &mut self.diagnostics);
        taken
    }

    /// Takes out everything reported so far, where that is nothing.
    pub fn assert_ok(&mut self)
        requires
            old(self).diagnostics@.len() == 0,
        ensures
            final(self).diagnostics@.len() == 0,
    {
        let errors = self.into_errors();
        if errors.len() != 0 {
            assert(false);
        }
    }
}

/// Appending the same report to a sink and to a record of what was
/// reported keeps the sink equal to what it held before followed by the
/// record, and keeps it unequal where it was unequal.
pub proof fn lemma_push_agrees(given: Seq<DiagView>, prior: Seq<DiagView>, reported: Seq<DiagView>, d: DiagView)
    ensures
        (given.push(d) == prior + reported.push(d)) == (given == prior + reported),
{
    if given.push(d) == prior + reported.push(d) {
        assert(given =~= given.push(d).drop_last());
        assert(prior + reported =~= (prior + reported.push(d)).drop_last());
    }
    if given == prior + reported {
        assert(given.push(d) =~= prior + reported.push(d));
    }
}

/// The views of a list of diagnostics.
pub open spec fn diag_views(ds: Seq<Diagnostic>) -> Seq<DiagView> {
    ds.map_values(|d: Diagnostic| diag_view(d))
}

impl DiagnosticReporter for VecReporter {
    open spec fn given(&self) -> Seq<DiagView> {
        diag_views(self.diagnostics@)
    }

    fn report(&mut self, diagnostic: Diagnostic)
        ensures
            final(self).diagnostics@ == old(self).diagnostics@.push(diagnostic),
    {
        self.diagnostics.push(diagnostic);
        assert(diag_views(self.diagnostics@) =~= diag_views(old(self).diagnostics@).push(
            diag_view(diagnostic),
        ));
    }
}

} // verus!
