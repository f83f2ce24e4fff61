//! Diagnostics collected while compiling an expression-language program:
//! a severity, a structured cause, and the source span it points at.

use vstd::prelude::*;

verus! {

/// A half-open byte range in the source text of a program.
#[derive(Clone, Copy, PartialEq, Eq, Structural, Debug)]
pub struct Span {
    pub start: usize,
    pub end: usize,
}

impl Span {
    pub fn new(start: usize, end: usize) -> (s: Span)
        ensures
            s.start == start,
            s.end == end,
    {
        Span { start, end }
    }
}

/// How bad a diagnostic is.  Bugs and errors fail the compilation;
/// warnings are passed through beside the compiled program.
#[derive(Clone, Copy, PartialEq, Eq, Structural, Debug)]
pub enum Severity {
    Bug,
    Error,
    Warning,
}

/// The structured cause of a diagnostic.
#[derive(Clone, PartialEq, Eq, Debug)]
pub enum DiagnosticKind {
    /// The parser left an error node in the AST.
    ParseFailure { detail: String },
    /// A variable was read that no assignment introduced.
    UndefinedVariable { ident: String },
    /// A call names a function that is not registered.
    UndefinedFunction { ident: String },
    /// A call hands a function more arguments than it has parameters.
    TooManyArguments { ident: String },
    /// A call attaches a closure to a function that takes none.
    UnexpectedClosure { ident: String },
    /// A call names a function that still works but is being retired.
    DeprecatedFunction { ident: String },
    /// A root expression can fail at run time and nothing handles that.
    FallibleExpression,
    /// An if-predicate can fail at run time.
    FalliblePredicate,
    /// An if-predicate does not resolve to a boolean.
    NonBooleanPredicate,
    /// Negation applied to an expression that cannot be boolean.
    InvalidNegation,
    /// The merge operator applied to non-object operands.
    InvalidMergeOperation,
    /// An error-handling assignment whose expression cannot fail.
    UnneededErrorAssignment,
    /// An abort message that cannot be a string.
    InvalidAbortMessage,
    /// A regular-expression literal that does not parse.
    InvalidRegex { pattern: String },
    /// A timestamp literal that does not parse.
    InvalidTimestamp { text: String },
    /// An expression kind that this compiler was configured without.
    MissingFeature { feature: String },
}

/// One diagnostic: severity, structured cause, and source span.
#[derive(Clone, PartialEq, Eq, Debug)]
pub struct Diagnostic {
    pub severity: Severity,
    pub kind: DiagnosticKind,
    pub span: Span,
}

/// Whether a diagnostic of this severity fails the compilation.
pub open spec fn spec_is_error_severity(s: Severity) -> bool {
    s is Bug || s is Error
}

impl Diagnostic {
    /// An error diagnostic.
    pub fn error(kind: DiagnosticKind, span: Span) -> (d: Diagnostic)
        ensures
            d.severity is Error,
            d.kind == kind,
            d.span == span,
    {
        Diagnostic { severity: Severity::Error, kind, span }
    }

    /// A warning diagnostic.
    pub fn warning(kind: DiagnosticKind, span: Span) -> (d: Diagnostic)
        ensures
            d.severity is Warning,
            d.kind == kind,
            d.span == span,
    {
        Diagnostic { severity: Severity::Warning, kind, span }
    }

    /// Whether this diagnostic fails the compilation.
    pub fn is_error(&self) -> (r: bool)
        ensures
            r == spec_is_error_severity(self.severity),
    {
        matches!(self.severity, Severity::Bug | Severity::Error)
    }

    /// A short human-readable description of the cause.
    pub fn message(&self) -> String {
        match &self.kind {
            DiagnosticKind::ParseFailure { detail } => {
                String::from_str("parse error: ").concat(detail.as_str())
            },
            DiagnosticKind::UndefinedVariable { ident } => {
                String::from_str("undefined variable: ").concat(ident.as_str())
            },
            DiagnosticKind::UndefinedFunction { ident } => {
                String::from_str("undefined function: ").concat(ident.as_str())
            },
            DiagnosticKind::TooManyArguments { ident } => {
                String::from_str("too many arguments for function: ").concat(ident.as_str())
            },
            DiagnosticKind::UnexpectedClosure { ident } => {
                String::from_str("function takes no closure: ").concat(ident.as_str())
            },
            DiagnosticKind::DeprecatedFunction { ident } => {
                String::from_str("deprecated function: ").concat(ident.as_str())
            },
            DiagnosticKind::FallibleExpression => {
                String::from_str("unhandled fallible expression")
            },
            DiagnosticKind::FalliblePredicate => String::from_str("fallible predicate"),
            DiagnosticKind::NonBooleanPredicate => String::from_str("predicate must be a boolean"),
            DiagnosticKind::InvalidNegation => {
                String::from_str("negation needs a boolean expression")
            },
            DiagnosticKind::InvalidMergeOperation => {
                String::from_str("merge needs object operands")
            },
            DiagnosticKind::UnneededErrorAssignment => {
                String::from_str("error assignment of an infallible expression")
            },
            DiagnosticKind::InvalidAbortMessage => {
                String::from_str("abort message must be a string")
            },
            DiagnosticKind::InvalidRegex { pattern } => {
                String::from_str("invalid regular expression: ").concat(pattern.as_str())
            },
            DiagnosticKind::InvalidTimestamp { text } => {
                String::from_str("invalid timestamp: ").concat(text.as_str())
            },
            DiagnosticKind::MissingFeature { feature } => {
                String::from_str("expression kind not enabled: ").concat(feature.as_str())
            },
        }
    }
}

} // verus!
