//! Errors of the rule compiler: parsing, semantic checks and optimisation.
use vstd::prelude::*;
use crate::rules::ast::Span;

verus! {

/// What kind of parse failure occurred.
#[derive(Debug, Clone, Copy, PartialEq, Eq, Structural)]
pub enum ParseErrorKind {
    InvalidLiteral,
    ReservedKeyword,
}

/// A parse failure, with the span it concerns where one is known.
#[derive(Debug, Clone, PartialEq, Eq)]
pub struct ParseError {
    pub kind: ParseErrorKind,
    pub span: Option<Span>,
    pub message: String,
}

impl ParseError {
    pub fn new(kind: ParseErrorKind, span: Option<Span>, message: String) -> (r: Self)
        ensures
            r.kind == kind,
            r.span == span,
            r.message@ == message@,
    {
        ParseError { kind, span, message }
    }
}

/// What a semantic check rejected.
#[derive(Debug, Clone, Copy, PartialEq, Eq, Structural)]
pub enum SemanticErrorKind {
    UnknownVariable,
    DuplicateDestination,
    InvalidTopicFilter,
    TypeMismatch,
}

/// A rule rejected by a semantic check.
#[derive(Debug, Clone, PartialEq, Eq)]
pub struct SemanticError {
    pub kind: SemanticErrorKind,
    pub span: Span,
    pub message: String,
}

impl SemanticError {
    pub fn new(kind: SemanticErrorKind, span: Span, message: String) -> (r: Self)
        ensures
            r.kind == kind,
            r.span == span,
            r.message@ == message@,
    {
        SemanticError { kind, span, message }
    }
}

/// What the optimiser rejected.
#[derive(Debug, Clone, Copy, PartialEq, Eq, Structural)]
pub enum OptimizerErrorKind {
    DeadRule,
}

/// A rule rejected by the optimiser.
#[derive(Debug, Clone, PartialEq, Eq)]
pub struct OptimizerError {
    pub kind: OptimizerErrorKind,
    pub span: Span,
    pub message: String,
}

impl OptimizerError {
    pub fn new(kind: OptimizerErrorKind, span: Span, message: String) -> (r: Self)
        ensures
            r.kind == kind,
            r.span == span,
            r.message@ == message@,
    {
        OptimizerError { kind, span, message }
    }
}

} // verus!
