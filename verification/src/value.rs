//! Runtime values and evaluation errors.

use crate::ast::{Ast, BinOp, UnOp};
use std::rc::Rc;
use vstd::prelude::*;

verus! {

/// The kind of a runtime value, used in error reports.
#[derive(Debug, Clone, Copy, PartialEq, Eq, Structural)]
pub enum Kind {
    Number,
    Boolean,
    Str,
    Unit,
    Function,
    NativeFunction,
}

/// The operation during which a type mismatch was detected.
#[derive(Debug, Clone, Copy, PartialEq, Eq, Structural)]
pub enum OpKind {
    Binary(BinOp),
    Unary(UnOp),
    /// The condition of an `If` node.
    Condition,
}

/// A runtime value.
///
/// Primitives are copied by value. A `Function` is a closure: it shares its
/// parameter list and body with the tree (`Rc`) and names the scope that was
/// current at definition time by its index in the [`crate::env::Environment`]
/// store. A `NativeFunction` names a host-registered callable by an opaque
/// identifier together with its fixed arity.
#[derive(Debug, PartialEq)]
pub enum Value {
    Number(i64),
    Boolean(bool),
    Str(String),
    Unit,
    Function { params: Rc<Vec<String>>, body: Rc<Ast>, env: usize },
    NativeFunction { arity: usize, id: usize },
}

/// An evaluation failure. Every failure aborts the current evaluation and
/// propagates to the caller unchanged; the core never recovers locally.
#[derive(Debug, PartialEq)]
pub enum Error {
    /// Lookup or assignment target not found in any enclosing scope.
    UndefinedVariable(String),
    /// Operand kind incompatible with the operator or condition.
    TypeMismatch { expected: Kind, actual: Kind, op: OpKind },
    /// Division or modulo with a zero divisor.
    DivisionByZero,
    /// Call target is not a function; carries the target's kind.
    NotCallable(Kind),
    /// Wrong number of call arguments: expected, then actual.
    ArityMismatch(usize, usize),
    /// Propagated verbatim from a native callback.
    NativeError(String),
    /// The configured call-depth budget was exhausted: the abstract
    /// stack-overflow condition. It is fatal to the whole evaluation, not a
    /// recoverable condition of the interpreted program.
    StackOverflow,
}

/// The kind of a value, as a spec-level function.
pub open spec fn kind_of(v: Value) -> Kind {
    match v {
        Value::Number(_) => Kind::Number,
        Value::Boolean(_) => Kind::Boolean,
        Value::Str(_) => Kind::Str,
        Value::Unit => Kind::Unit,
        Value::Function { .. } => Kind::Function,
        Value::NativeFunction { .. } => Kind::NativeFunction,
    }
}

/// A value is self-contained but for the scope index a closure captures;
/// that index must name one of the `n` scopes of the store it lives with.
pub open spec fn value_env_ok(v: Value, n: int) -> bool {
    match v {
        Value::Function { env, .. } => env < n,
        _ => true,
    }
}

impl Value {
    /// The kind of this value.
    pub fn kind(&self) -> (k: Kind)
        ensures
            k == kind_of(*self),
    {
        match self {
            Value::Number(_) => Kind::Number,
            Value::Boolean(_) => Kind::Boolean,
            Value::Str(_) => Kind::Str,
            Value::Unit => Kind::Unit,
            Value::Function { .. } => Kind::Function,
            Value::NativeFunction { .. } => Kind::NativeFunction,
        }
    }
}

impl Clone for Value {
    /// Primitives are copied; a closure shares (not duplicates) its
    /// parameter list, body and captured scope.
    fn clone(&self) -> (res: Self)
        ensures
            res == *self,
    {
        match self {
            Value::Number(n) => Value::Number(*n),
            Value::Boolean(b) => Value::Boolean(*b),
            Value::Str(s) => Value::Str(s.clone()),
            Value::Unit => Value::Unit,
            Value::Function { params, body, env } => Value::Function {
                params: params.clone(),
                body: body.clone(),
                env: *env,
            },
            Value::NativeFunction { arity, id } => Value::NativeFunction {
                arity: *arity,
                id: *id,
            },
        }
    }
}

} // verus!
