//! Diagnostics: what a compiler pass has to say about a piece of source text.

use crate::compiler::declaration::{clone_range, Position};
use std::ops::RangeInclusive;
use vstd::prelude::*;

verus! {

/// How serious a diagnostic is. A compilation succeeds if and only if it
/// produced no diagnostic of severity `Error`.
#[derive(Debug, Clone, Copy, PartialEq, Eq, Hash, Structural)]
pub enum DiagnosticSeverity {
    /// The program cannot be compiled.
    Error,
    /// The program compiles, but probably not to what its author meant.
    Warning,
    /// A note.
    Info,
}

/// A message of a compiler pass about a range of source text.
#[derive(Debug, PartialEq, Eq)]
pub struct Diagnostic {
    /// The text that the message is about, from its first position to its
    /// last, both included.
    pub range: RangeInclusive<Position>,
    pub severity: DiagnosticSeverity,
    pub message: String,
    /// The source text around the range, where the pass had it at hand.
    pub context: Option<String>,
}

/// The mathematical value of a [`Diagnostic`].
pub struct DiagnosticView {
    pub start: Position,
    pub stop: Position,
    pub severity: DiagnosticSeverity,
    pub message: Seq<char>,
    pub context: Option<Seq<char>>,
}

impl View for Diagnostic {
    type V = DiagnosticView;

    open spec fn view(&self) -> DiagnosticView {
        DiagnosticView {
            start: self.range@.start,
            stop: self.range@.end,
            severity: self.severity,
            message: self.message@,
            context: self.context.deep_view(),
        }
    }
}

impl DeepView for Diagnostic {
    type V = DiagnosticView;

    open spec fn deep_view(&self) -> DiagnosticView {
        self@
    }
}

impl Clone for Diagnostic {
    fn clone(&self) -> (r: Self)
        ensures
            r@ == self@,
    {
        Diagnostic {
            range: clone_range(&self.range),
            severity: self.severity,
            message: self.message.clone(),
            context: match &self.context {
                Some(context) => Some(context.clone()),
                None => None,
            },
        }
    }
}

impl Diagnostic {
    /// A diagnostic of severity `Error` without context.
    pub fn from_message(range: RangeInclusive<Position>, message: String) -> (r: Self)
        ensures
            r@ == (DiagnosticView {
                start: range@.start,
                stop: range@.end,
                severity: DiagnosticSeverity::Error,
                message: message@,
                context: None,
            }),
    {
        Diagnostic { range, severity: DiagnosticSeverity::Error, message, context: None }
    }

    /// The same diagnostic with another severity.
    pub fn with_severity(self, severity: DiagnosticSeverity) -> (r: Self)
        ensures
            r@ == (DiagnosticView { severity, ..self@ }),
    {
        Diagnostic { severity, ..self }
    }

    /// The same diagnostic with the given source text as its context.
    pub fn with_context(self, context: String) -> (r: Self)
        ensures
            r@ == (DiagnosticView { context: Some(context@), ..self@ }),
    {
        Diagnostic { context: Some(context), ..self }
    }
}

} // verus!
