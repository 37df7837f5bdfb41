//! Diagnostics about a source: a message, optional help, a severity, the place in
//! the source it refers to, and places that give context.
use crate::node::Span;
use crate::parser::result::{ParseError, ParseErrorKind};
use vstd::prelude::*;
use vstd::string::StringExecFns;

verus! {

/// How serious a diagnostic is.
#[derive(Debug, Clone, Copy, PartialEq, Eq, Structural)]
pub enum Severity {
    Advice,
    Warning,
    Error,
}

/// A diagnostic message with its place in the source.
#[derive(Debug, Clone)]
pub struct SourceDiagnostic {
    /// The main message.
    pub message: String,
    /// Optional help that says what to do.
    pub help: Option<String>,
    /// How serious the diagnostic is.
    pub severity: Severity,
    /// The place in the source the diagnostic refers to.
    pub span: Span,
    /// Further places, each with a label, that give context.
    pub trace: Vec<(String, Span)>,
}

/// Whether a diagnostic has the message, severity and span given, no help and no
/// trace.
pub open spec fn plain_diagnostic(
    d: SourceDiagnostic,
    message: Seq<char>,
    severity: Severity,
    span: Span,
) -> bool {
    &&& d.message@ == message
    &&& d.help is None
    &&& d.severity == severity
    &&& d.span == span
    &&& d.trace@.len() == 0
}

/// The message that reports a parse error of a kind.
pub open spec fn error_message(kind: ParseErrorKind) -> Seq<char> {
    match kind {
        ParseErrorKind::Unclosed(_) => "unclosed delimiter"@,
        ParseErrorKind::InvalidEscape => "invalid escape sequence"@,
        ParseErrorKind::ColumnMismatch => "Adjacent table rows must contain equal number of cells."@,
        ParseErrorKind::Unexpected => "unexpected input"@,
    }
}

/// Whether a diagnostic reports a parse error: an error with its message and span.
pub open spec fn reports(d: SourceDiagnostic, e: ParseError) -> bool {
    plain_diagnostic(d, error_message(e.kind), Severity::Error, e.span)
}

impl SourceDiagnostic {
    /// A diagnostic of the severity given, without help or trace.
    fn plain(span: Span, message: String, severity: Severity) -> (r: Self)
        ensures
            plain_diagnostic(r, message@, severity, span),
    {
        SourceDiagnostic { message, help: None, severity, span, trace: Vec::new() }
    }

    /// An error.
    pub fn error(span: Span, message: String) -> (r: Self)
        ensures
            plain_diagnostic(r, message@, Severity::Error, span),
    {
        Self::plain(span, message, Severity::Error)
    }

    /// A warning.
    pub fn warn(span: Span, message: String) -> (r: Self)
        ensures
            plain_diagnostic(r, message@, Severity::Warning, span),
    {
        Self::plain(span, message, Severity::Warning)
    }

    /// An advice.
    pub fn info(span: Span, message: String) -> (r: Self)
        ensures
            plain_diagnostic(r, message@, Severity::Advice, span),
    {
        Self::plain(span, message, Severity::Advice)
    }

    /// The diagnostic with help added.
    pub fn with_help(self, help: String) -> (r: Self)
        ensures
            r.help == Some(help),
            r.message == self.message,
            r.severity == self.severity,
            r.span == self.span,
            r.trace == self.trace,
    {
        let mut d = self;
        d.help = Some(help);
        d
    }

    /// Sets the help of the diagnostic.
    pub fn set_help(&mut self, help: String)
        ensures
            final(self).help == Some(help),
            final(self).message == old(self).message,
            final(self).severity == old(self).severity,
            final(self).span == old(self).span,
            final(self).trace == old(self).trace,
    {
        self.help = Some(help);
    }

    /// The diagnostic with its trace replaced.
    pub fn with_trace(self, trace: Vec<(String, Span)>) -> (r: Self)
        ensures
            r.trace == trace,
            r.message == self.message,
            r.help == self.help,
            r.severity == self.severity,
            r.span == self.span,
    {
        let mut d = self;
        d.trace = trace;
        d
    }

    /// Replaces the trace of the diagnostic.
    pub fn set_trace(&mut self, trace: Vec<(String, Span)>)
        ensures
            final(self).trace == trace,
            final(self).message == old(self).message,
            final(self).help == old(self).help,
            final(self).severity == old(self).severity,
            final(self).span == old(self).span,
    {
        self.trace = trace;
    }

    /// Whether the diagnostic is an error.
    pub fn is_error(&self) -> (r: bool)
        ensures
            r == (self.severity == Severity::Error),
    {
        self.severity == Severity::Error
    }

    /// Whether the diagnostic is a warning.
    pub fn is_warning(&self) -> (r: bool)
        ensures
            r == (self.severity == Severity::Warning),
    {
        self.severity == Severity::Warning
    }

    /// Whether the diagnostic is an advice.
    pub fn is_info(&self) -> (r: bool)
        ensures
            r == (self.severity == Severity::Advice),
    {
        self.severity == Severity::Advice
    }

    /// The diagnostic that reports a parse error.
    pub fn from_error(e: ParseError) -> (r: Self)
        ensures
            reports(r, e),
    {
        let message = match e.kind {
            ParseErrorKind::Unclosed(_) => String::from_str("unclosed delimiter"),
            ParseErrorKind::InvalidEscape => String::from_str("invalid escape sequence"),
            ParseErrorKind::ColumnMismatch => String::from_str(
                "Adjacent table rows must contain equal number of cells.",
            ),
            ParseErrorKind::Unexpected => String::from_str("unexpected input"),
        };
        Self::error(e.span, message)
    }
}

} // verus!
