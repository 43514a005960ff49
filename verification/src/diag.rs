//! Source spans and diagnostics.

use vstd::prelude::*;

verus! {

/// A half-open byte range of the source text.
#[derive(Debug, Clone, Copy, PartialEq, Eq, Hash, Structural)]
pub struct Span {
    pub start: u32,
    pub end: u32,
}

impl Span {
    pub fn new(start: u32, end: u32) -> (span: Span)
        ensures
            span == (Span { start, end }),
    {
        Span { start, end }
    }
}

#[derive(Debug, Clone, Copy, PartialEq, Eq, Hash, Structural)]
pub enum Severity {
    Error,
    Note,
    Help,
}

#[derive(Debug, Clone, PartialEq, Eq)]
pub struct Diagnostic {
    pub severity: Severity,
    pub message: String,
    pub span: Option<Span>,
}

/// What a diagnostic says.
pub struct DiagnosticView {
    pub severity: Severity,
    pub message: Seq<char>,
    pub span: Option<Span>,
}

impl View for Diagnostic {
    type V = DiagnosticView;

    open spec fn view(&self) -> DiagnosticView {
        DiagnosticView { severity: self.severity, message: self.message@, span: self.span }
    }
}

/// What a list of diagnostics says, in order.
pub open spec fn diagnostics_view(list: Seq<Diagnostic>) -> Seq<DiagnosticView> {
    Seq::new(list.len(), |i: int| list[i]@)
}

pub open spec fn error_view(message: Seq<char>, span: Option<Span>) -> DiagnosticView {
    DiagnosticView { severity: Severity::Error, message, span }
}

pub open spec fn note_view(message: Seq<char>, span: Option<Span>) -> DiagnosticView {
    DiagnosticView { severity: Severity::Note, message, span }
}

pub open spec fn help_view(message: Seq<char>, span: Option<Span>) -> DiagnosticView {
    DiagnosticView { severity: Severity::Help, message, span }
}

impl Diagnostic {
    pub fn error(message: String, span: Option<Span>) -> (diagnostic: Diagnostic)
        ensures
            diagnostic@ == error_view(message@, span),
    {
        Diagnostic { severity: Severity::Error, message, span }
    }

    pub fn note(message: String, span: Option<Span>) -> (diagnostic: Diagnostic)
        ensures
            diagnostic@ == note_view(message@, span),
    {
        Diagnostic { severity: Severity::Note, message, span }
    }

    pub fn help(message: String, span: Option<Span>) -> (diagnostic: Diagnostic)
        ensures
            diagnostic@ == help_view(message@, span),
    {
        Diagnostic { severity: Severity::Help, message, span }
    }
}

/// Appends an error to a list of diagnostics.
pub fn push_error(list: &mut Vec<Diagnostic>, message: String, span: Option<Span>)
    ensures
        diagnostics_view(final(list)@) == diagnostics_view(old(list)@).push(
            error_view(message@, span),
        ),
{
    list.push(Diagnostic::error(message, span));
    assert(diagnostics_view(list@) =~= diagnostics_view(old(list)@).push(
        error_view(message@, span),
    ));
}

} // verus!
