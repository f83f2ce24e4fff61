//! The abstract syntax tree of the expression language, as the parser
//! hands it to the compiler.  Every node carries the source span it was
//! read from; parse errors are kept inline as error nodes so one bad root
//! expression does not abort the whole compilation.

use vstd::prelude::*;

use crate::diagnostic::Span;

verus! {

/// A literal value in the source text.  Numeric float, regular-expression
/// and timestamp literals keep their source text; they are validated, not
/// evaluated, at compile time.
#[derive(Clone, PartialEq, Eq, Debug)]
pub enum Literal {
    Str(String),
    Int(i64),
    Float(String),
    Bool(bool),
    Regex(String),
    Timestamp(String),
    Null,
}

/// A binary operator.
#[derive(Clone, Copy, PartialEq, Eq, Structural, Debug)]
pub enum Opcode {
    Mul,
    Div,
    Add,
    Sub,
    Eq,
    Ne,
    Gt,
    Ge,
    Lt,
    Le,
    And,
    Or,
    /// Error coalescing: `a ?? b` yields `b` where `a` fails.
    Coalesce,
    /// Object merge: `a | b`.
    Merge,
}

/// The grouping containers of the language.
#[derive(Debug)]
pub enum Container {
    Group(Box<Expr>),
    Block(Vec<Expr>),
    Array(Vec<Expr>),
    Object(Vec<(String, Expr)>),
}

/// An if-statement: predicate, consequent block, optional alternative.
#[derive(Debug)]
pub struct IfStatement {
    pub predicate: Vec<Expr>,
    pub consequent: Vec<Expr>,
    pub alternative: Option<Vec<Expr>>,
}

/// What a query reads from.
#[derive(Debug)]
pub enum QueryTarget {
    /// The event being processed.
    External,
    /// A local variable.
    Internal(String),
    /// A container expression queried in place.
    Container(Container),
    /// The result of a function call queried in place.
    FunctionCall(Box<FunctionCall>),
}

/// A path query against a target.
#[derive(Debug)]
pub struct Query {
    pub target: QueryTarget,
    pub path: String,
}

/// A call of a registered function.
#[derive(Debug)]
pub struct FunctionCall {
    pub ident: String,
    /// `f!(..)`: a run-time error aborts the program instead of failing
    /// the expression.
    pub abort_on_error: bool,
    pub arguments: Vec<FunctionArgument>,
    pub closure: Option<FunctionClosure>,
}

/// One argument of a call, optionally keyword-named.
#[derive(Debug)]
pub struct FunctionArgument {
    pub ident: Option<String>,
    pub expr: Expr,
}

/// A closure handed to a call: bound variables and a block body.
#[derive(Debug)]
pub struct FunctionClosure {
    pub variables: Vec<String>,
    pub block: Vec<Expr>,
}

/// Where an assignment writes to.
#[derive(Clone, PartialEq, Eq, Debug)]
pub enum AssignmentTarget {
    /// Discard the value.
    Noop,
    /// A local variable, optionally a path inside it.
    Internal(String, Option<String>),
    /// A path of the event, the root where none is given.
    External(Option<String>),
}

/// Plain assignment or merge-assignment (`|=`).
#[derive(Clone, Copy, PartialEq, Eq, Structural, Debug)]
pub enum AssignmentOp {
    Assign,
    Merge,
}

/// An assignment: plain single-target, or the error-handling form
/// `ok, err = expr` that never fails at run time.
#[derive(Debug)]
pub enum Assignment {
    Single { target: AssignmentTarget, op: AssignmentOp, expr: Box<Expr> },
    Infallible { ok: AssignmentTarget, err: AssignmentTarget, op: AssignmentOp, expr: Box<Expr> },
}

/// One expression node, with its source span.
#[derive(Debug)]
pub enum Expr {
    Literal(Span, Literal),
    Container(Span, Container),
    IfStatement(Span, IfStatement),
    Op(Span, Box<Expr>, Opcode, Box<Expr>),
    Assignment(Span, Assignment),
    Query(Span, Query),
    FunctionCall(Span, FunctionCall),
    Variable(Span, String),
    Not(Span, Box<Expr>),
    Abort(Span, Option<Box<Expr>>),
}

impl Expr {
    /// The source span of this node.
    pub fn span(&self) -> Span {
        match self {
            Expr::Literal(span, _) => *span,
            Expr::Container(span, _) => *span,
            Expr::IfStatement(span, _) => *span,
            Expr::Op(span, _, _, _) => *span,
            Expr::Assignment(span, _) => *span,
            Expr::Query(span, _) => *span,
            Expr::FunctionCall(span, _) => *span,
            Expr::Variable(span, _) => *span,
            Expr::Not(span, _) => *span,
            Expr::Abort(span, _) => *span,
        }
    }
}

/// One root-level entry of a parsed program: an expression, or a parse
/// error the parser recovered from.
#[derive(Debug)]
pub enum RootExpr {
    Expr(Expr),
    Error(Span, String),
}

} // verus!
