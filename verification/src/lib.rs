//! A verified tree-walking interpreter for a small expression/statement
//! language.
//!
//! The crate takes a parsed syntax tree ([`ast::Ast`], produced by an
//! external parser) and evaluates it against a chain of lexically-scoped
//! environments, producing a runtime value or an error. The pieces:
//!
//! - [`ast`] — the tree; pure data, never mutated by evaluation.
//! - [`value`] — runtime values ([`value::Value`]), including closures and
//!   host-registered native callables, and the error taxonomy
//!   ([`value::Error`]).
//! - [`env`] — the scope store: every scope of one evaluation lives in one
//!   arena and is named by its index, so closures share (not copy) the
//!   scopes they capture and mutations are seen by every holder.
//! - [`ops`] — the unary and binary operators as pure functions. Numbers
//!   are 64-bit signed integers with wrapping arithmetic; division and
//!   modulo by zero are errors, never values.
//! - [`interp`] — the evaluator. Its whole behaviour is pinned down by the
//!   specification-level interpreter [`interp::eval_spec`], which the
//!   executable [`interp::Interpreter::eval`] is proved to match exactly,
//!   up to invocations of host-provided native callables.
//! - [`laws`] — general properties of the evaluator, stated and proved
//!   against `eval_spec`: literals are inert, closures capture their
//!   defining scope, assignment never creates a binding, sibling closures
//!   observe each other's mutations, and more.

pub mod ast;
pub mod value;
pub mod env;
pub mod ops;
pub mod interp;
pub mod laws;
