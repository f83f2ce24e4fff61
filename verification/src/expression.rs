//! Compiled expression nodes: the type-checked image of the AST that a
//! compiled program carries, and the type information computed for each
//! node.

use vstd::prelude::*;

use crate::ast::{AssignmentOp, AssignmentTarget, Literal, Opcode};
use crate::kind::Kind;

verus! {

/// What the compiler knows of an expression's run-time behaviour: the
/// kind of the value it yields, and whether evaluating it can fail.
/// An expression whose kind is empty never yields a value at all.
#[derive(Clone, Copy, PartialEq, Eq, Structural, Debug)]
pub struct TypeDef {
    pub fallible: bool,
    pub kind: Kind,
}

impl TypeDef {
    /// Whether this expression never yields a value (it diverges).
    pub fn is_never(&self) -> (r: bool)
        ensures
            r == self.kind.spec_is_never(),
    {
        self.kind.is_never()
    }

    /// Whether evaluating this expression can fail at run time.
    pub fn is_fallible(&self) -> (r: bool)
        ensures
            r == self.fallible,
    {
        self.fallible
    }
}

/// One compiled expression node.
#[derive(Debug)]
pub enum Expr {
    Literal(Literal),
    Group(Box<Expr>),
    Block(Vec<Expr>),
    Array(Vec<Expr>),
    Object(Vec<(String, Expr)>),
    IfStatement { predicate: Vec<Expr>, consequent: Vec<Expr>, alternative: Option<Vec<Expr>> },
    Op { lhs: Box<Expr>, opcode: Opcode, rhs: Box<Expr> },
    Assignment {
        ok: AssignmentTarget,
        err: Option<AssignmentTarget>,
        op: AssignmentOp,
        expr: Box<Expr>,
    },
    Query { external: bool, variable: Option<String>, subject: Option<Box<Expr>>, path: String },
    FunctionCall {
        ident: String,
        abort_on_error: bool,
        arguments: Vec<Expr>,
        closure: Option<(Vec<String>, Vec<Expr>)>,
    },
    Variable { ident: String },
    Not(Box<Expr>),
    Abort { message: Option<Box<Expr>> },
    /// The placeholder a program compiles to when it holds no expression.
    Noop,
}

} // verus!
