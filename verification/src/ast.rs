//! The abstract syntax tree that the evaluator walks.
//!
//! Nodes are pure data: evaluation never mutates them. A function body is
//! held behind `Rc` so that the closure value produced for a `FunctionDef`
//! shares the body with the tree instead of copying it.

use std::rc::Rc;
use vstd::prelude::*;

verus! {

/// A constant embedded directly in the syntax tree.
#[derive(Debug, PartialEq)]
pub enum Lit {
    Number(i64),
    Boolean(bool),
    Str(String),
}

/// A binary operator.
///
/// `And` and `Or` evaluate both operands (no short-circuiting): operands are
/// always evaluated left to right, and the operator is applied afterwards.
#[derive(Debug, Clone, Copy, PartialEq, Eq, Structural)]
pub enum BinOp {
    Add,
    Sub,
    Mul,
    Div,
    Mod,
    Lt,
    Le,
    Gt,
    Ge,
    Eq,
    Ne,
    And,
    Or,
}

/// A unary operator: arithmetic negation or boolean negation.
#[derive(Debug, Clone, Copy, PartialEq, Eq, Structural)]
pub enum UnOp {
    Neg,
    Not,
}

/// One node of the syntax tree.
///
/// The tree is produced by an external parser; this crate only consumes it.
#[derive(Debug, PartialEq)]
pub enum Ast {
    /// A constant; evaluates to itself.
    Literal(Lit),
    /// A reference to a binding, resolved through the scope chain.
    Variable(String),
    /// An operation over two sub-expressions, evaluated left to right.
    BinaryOp(BinOp, Box<Ast>, Box<Ast>),
    /// An operation over one sub-expression.
    UnaryOp(UnOp, Box<Ast>),
    /// Introduces (or shadows) a binding in the current scope.
    Let(String, Box<Ast>),
    /// Mutates the nearest existing binding; never creates one.
    Assign(String, Box<Ast>),
    /// Conditional with an optional else branch.
    If(Box<Ast>, Box<Ast>, Option<Box<Ast>>),
    /// A sequence of statements evaluated in a fresh child scope.
    Block(Vec<Ast>),
    /// Produces a closure capturing the current environment. The optional
    /// name identifies the function in source text; evaluation does not bind
    /// it (a binding is made with `Let`).
    FunctionDef(Rc<Vec<String>>, Rc<Ast>, Option<String>),
    /// Invokes a function or native callable.
    Call(Box<Ast>, Vec<Ast>),
    /// A sequence of top-level statements evaluated in the current scope.
    Program(Vec<Ast>),
}

} // verus!
