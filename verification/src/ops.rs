//! Operator semantics: what each unary and binary operator returns, as pure
//! functions of the operand values.
//!
//! Type rules: arithmetic requires two `Number`s; comparison is defined for
//! two `Number`s and, lexicographically, for two `Str`s; the logical
//! operators require two `Boolean`s. Equality is defined across same-kind
//! values only and returns `false` (not an error) for differing kinds; two
//! function values always compare unequal (closures have no observable
//! identity). Division or modulo by zero fails with `DivisionByZero`, never
//! silently producing a value. Number arithmetic wraps around on overflow.

use crate::ast::{BinOp, UnOp};
use crate::value::{kind_of, Error, Kind, OpKind, Value};
use vstd::prelude::*;

verus! {

/// Lexicographic order on character sequences, by code point.
pub open spec fn str_lt(a: Seq<char>, b: Seq<char>) -> bool
    decreases a.len(),
{
    if b.len() == 0 {
        false
    } else if a.len() == 0 {
        true
    } else if a[0] != b[0] {
        (a[0] as u32) < (b[0] as u32)
    } else {
        str_lt(a.drop_first(), b.drop_first())
    }
}

/// Equality of two values: defined across same-kind primitives; `false`
/// for differing kinds and for function values.
pub open spec fn vals_equal(a: Value, b: Value) -> bool {
    match (a, b) {
        (Value::Number(x), Value::Number(y)) => x == y,
        (Value::Boolean(x), Value::Boolean(y)) => x == y,
        (Value::Str(x), Value::Str(y)) => x@ == y@,
        (Value::Unit, Value::Unit) => true,
        _ => false,
    }
}

/// The mismatch error for an operator wanting two `Number`s: the left
/// operand is reported first.
pub open spec fn num_mismatch(op: BinOp, a: Value, b: Value) -> Error {
    if kind_of(a) != Kind::Number {
        Error::TypeMismatch { expected: Kind::Number, actual: kind_of(a), op: OpKind::Binary(op) }
    } else {
        Error::TypeMismatch { expected: Kind::Number, actual: kind_of(b), op: OpKind::Binary(op) }
    }
}

/// The mismatch error for a comparison: it wants two `Number`s or two
/// `Str`s; the expected kind follows the left operand when that operand is
/// comparable at all.
pub open spec fn cmp_mismatch(op: BinOp, a: Value, b: Value) -> Error {
    if kind_of(a) == Kind::Number {
        Error::TypeMismatch { expected: Kind::Number, actual: kind_of(b), op: OpKind::Binary(op) }
    } else if kind_of(a) == Kind::Str {
        Error::TypeMismatch { expected: Kind::Str, actual: kind_of(b), op: OpKind::Binary(op) }
    } else {
        Error::TypeMismatch { expected: Kind::Number, actual: kind_of(a), op: OpKind::Binary(op) }
    }
}

/// The mismatch error for a logical operator wanting two `Boolean`s.
pub open spec fn bool_mismatch(op: BinOp, a: Value, b: Value) -> Error {
    if kind_of(a) != Kind::Boolean {
        Error::TypeMismatch { expected: Kind::Boolean, actual: kind_of(a), op: OpKind::Binary(op) }
    } else {
        Error::TypeMismatch { expected: Kind::Boolean, actual: kind_of(b), op: OpKind::Binary(op) }
    }
}

/// What a binary operator returns on two operand values.
pub open spec fn apply_binop_spec(op: BinOp, a: Value, b: Value) -> Result<Value, Error> {
    match op {
        BinOp::Add => match (a, b) {
            (Value::Number(x), Value::Number(y)) => Ok(Value::Number(x.wrapping_add(y))),
            _ => Err(num_mismatch(op, a, b)),
        },
        BinOp::Sub => match (a, b) {
            (Value::Number(x), Value::Number(y)) => Ok(Value::Number(x.wrapping_sub(y))),
            _ => Err(num_mismatch(op, a, b)),
        },
        BinOp::Mul => match (a, b) {
            (Value::Number(x), Value::Number(y)) => Ok(Value::Number(x.wrapping_mul(y))),
            _ => Err(num_mismatch(op, a, b)),
        },
        BinOp::Div => match (a, b) {
            (Value::Number(x), Value::Number(y)) => if y == 0 {
                Err(Error::DivisionByZero)
            } else {
                match x.checked_div(y) {
                    Some(q) => Ok(Value::Number(q)),
                    None => Ok(Value::Number(i64::MIN)),
                }
            },
            _ => Err(num_mismatch(op, a, b)),
        },
        BinOp::Mod => match (a, b) {
            (Value::Number(x), Value::Number(y)) => if y == 0 {
                Err(Error::DivisionByZero)
            } else {
                match x.checked_rem(y) {
                    Some(r) => Ok(Value::Number(r)),
                    None => Ok(Value::Number(0i64)),
                }
            },
            _ => Err(num_mismatch(op, a, b)),
        },
        BinOp::Lt => match (a, b) {
            (Value::Number(x), Value::Number(y)) => Ok(Value::Boolean(x < y)),
            (Value::Str(x), Value::Str(y)) => Ok(Value::Boolean(str_lt(x@, y@))),
            _ => Err(cmp_mismatch(op, a, b)),
        },
        BinOp::Le => match (a, b) {
            (Value::Number(x), Value::Number(y)) => Ok(Value::Boolean(x <= y)),
            (Value::Str(x), Value::Str(y)) => Ok(Value::Boolean(!str_lt(y@, x@))),
            _ => Err(cmp_mismatch(op, a, b)),
        },
        BinOp::Gt => match (a, b) {
            (Value::Number(x), Value::Number(y)) => Ok(Value::Boolean(x > y)),
            (Value::Str(x), Value::Str(y)) => Ok(Value::Boolean(str_lt(y@, x@))),
            _ => Err(cmp_mismatch(op, a, b)),
        },
        BinOp::Ge => match (a, b) {
            (Value::Number(x), Value::Number(y)) => Ok(Value::Boolean(x >= y)),
            (Value::Str(x), Value::Str(y)) => Ok(Value::Boolean(!str_lt(x@, y@))),
            _ => Err(cmp_mismatch(op, a, b)),
        },
        BinOp::Eq => Ok(Value::Boolean(vals_equal(a, b))),
        BinOp::Ne => Ok(Value::Boolean(!vals_equal(a, b))),
        BinOp::And => match (a, b) {
            (Value::Boolean(x), Value::Boolean(y)) => Ok(Value::Boolean(x && y)),
            _ => Err(bool_mismatch(op, a, b)),
        },
        BinOp::Or => match (a, b) {
            (Value::Boolean(x), Value::Boolean(y)) => Ok(Value::Boolean(x || y)),
            _ => Err(bool_mismatch(op, a, b)),
        },
    }
}

/// What a unary operator returns on an operand value. Negation wraps on
/// `i64::MIN`.
pub open spec fn apply_unop_spec(op: UnOp, a: Value) -> Result<Value, Error> {
    match op {
        UnOp::Neg => match a {
            Value::Number(x) => Ok(Value::Number(0i64.wrapping_sub(x))),
            _ => Err(
                Error::TypeMismatch {
                    expected: Kind::Number,
                    actual: kind_of(a),
                    op: OpKind::Unary(op),
                },
            ),
        },
        UnOp::Not => match a {
            Value::Boolean(x) => Ok(Value::Boolean(!x)),
            _ => Err(
                Error::TypeMismatch {
                    expected: Kind::Boolean,
                    actual: kind_of(a),
                    op: OpKind::Unary(op),
                },
            ),
        },
    }
}

/// Lexicographic comparison of two strings, by code point.
fn string_lt(a: &String, b: &String) -> (r: bool)
    ensures
        r == str_lt(a@, b@),
{
    let an = a.as_str().unicode_len();
    let bn = b.as_str().unicode_len();
    let mut i: usize = 0;
    proof {
        assert(a@.skip(0) =~= a@);
        assert(b@.skip(0) =~= b@);
    }
    loop
        invariant
            i <= an,
            i <= bn,
            an == a@.len(),
            bn == b@.len(),
            str_lt(a@, b@) == str_lt(a@.skip(i as int), b@.skip(i as int)),
        decreases an - i,
    {
        if i >= bn {
            return false;
        }
        if i >= an {
            return true;
        }
        let ca = a.as_str().get_char(i);
        let cb = b.as_str().get_char(i);
        if ca != cb {
            return (ca as u32) < (cb as u32);
        }
        proof {
            assert(a@.skip(i as int).drop_first() =~= a@.skip(i as int + 1));
            assert(b@.skip(i as int).drop_first() =~= b@.skip(i as int + 1));
        }
        i += 1;
    }
}

/// Equality of two values, as executable code.
fn values_equal(a: &Value, b: &Value) -> (r: bool)
    ensures
        r == vals_equal(*a, *b),
{
    match (a, b) {
        (Value::Number(x), Value::Number(y)) => *x == *y,
        (Value::Boolean(x), Value::Boolean(y)) => *x == *y,
        (Value::Str(x), Value::Str(y)) => *x == *y,
        (Value::Unit, Value::Unit) => true,
        _ => false,
    }
}

/// Applies a binary operator to two operand values.
pub fn apply_binop(op: BinOp, a: &Value, b: &Value) -> (r: Result<Value, Error>)
    ensures
        r == apply_binop_spec(op, *a, *b),
{
    match op {
        BinOp::Add => match (a, b) {
            (Value::Number(x), Value::Number(y)) => Ok(Value::Number(x.wrapping_add(*y))),
            _ => Err(num_mismatch_exec(op, a, b)),
        },
        BinOp::Sub => match (a, b) {
            (Value::Number(x), Value::Number(y)) => Ok(Value::Number(x.wrapping_sub(*y))),
            _ => Err(num_mismatch_exec(op, a, b)),
        },
        BinOp::Mul => match (a, b) {
            (Value::Number(x), Value::Number(y)) => Ok(Value::Number(x.wrapping_mul(*y))),
            _ => Err(num_mismatch_exec(op, a, b)),
        },
        BinOp::Div => match (a, b) {
            (Value::Number(x), Value::Number(y)) => if *y == 0 {
                Err(Error::DivisionByZero)
            } else {
                match x.checked_div(*y) {
                    Some(q) => Ok(Value::Number(q)),
                    None => Ok(Value::Number(i64::MIN)),
                }
            },
            _ => Err(num_mismatch_exec(op, a, b)),
        },
        BinOp::Mod => match (a, b) {
            (Value::Number(x), Value::Number(y)) => if *y == 0 {
                Err(Error::DivisionByZero)
            } else {
                match x.checked_rem(*y) {
                    Some(r) => Ok(Value::Number(r)),
                    None => Ok(Value::Number(0i64)),
                }
            },
            _ => Err(num_mismatch_exec(op, a, b)),
        },
        BinOp::Lt => match (a, b) {
            (Value::Number(x), Value::Number(y)) => Ok(Value::Boolean(*x < *y)),
            (Value::Str(x), Value::Str(y)) => Ok(Value::Boolean(string_lt(x, y))),
            _ => Err(cmp_mismatch_exec(op, a, b)),
        },
        BinOp::Le => match (a, b) {
            (Value::Number(x), Value::Number(y)) => Ok(Value::Boolean(*x <= *y)),
            (Value::Str(x), Value::Str(y)) => Ok(Value::Boolean(!string_lt(y, x))),
            _ => Err(cmp_mismatch_exec(op, a, b)),
        },
        BinOp::Gt => match (a, b) {
            (Value::Number(x), Value::Number(y)) => Ok(Value::Boolean(*x > *y)),
            (Value::Str(x), Value::Str(y)) => Ok(Value::Boolean(string_lt(y, x))),
            _ => Err(cmp_mismatch_exec(op, a, b)),
        },
        BinOp::Ge => match (a, b) {
            (Value::Number(x), Value::Number(y)) => Ok(Value::Boolean(*x >= *y)),
            (Value::Str(x), Value::Str(y)) => Ok(Value::Boolean(!string_lt(x, y))),
            _ => Err(cmp_mismatch_exec(op, a, b)),
        },
        BinOp::Eq => Ok(Value::Boolean(values_equal(a, b))),
        BinOp::Ne => Ok(Value::Boolean(!values_equal(a, b))),
        BinOp::And => match (a, b) {
            (Value::Boolean(x), Value::Boolean(y)) => Ok(Value::Boolean(*x && *y)),
            _ => Err(bool_mismatch_exec(op, a, b)),
        },
        BinOp::Or => match (a, b) {
            (Value::Boolean(x), Value::Boolean(y)) => Ok(Value::Boolean(*x || *y)),
            _ => Err(bool_mismatch_exec(op, a, b)),
        },
    }
}

/// Applies a unary operator to an operand value.
pub fn apply_unop(op: UnOp, a: &Value) -> (r: Result<Value, Error>)
    ensures
        r == apply_unop_spec(op, *a),
{
    match op {
        UnOp::Neg => match a {
            Value::Number(x) => Ok(Value::Number(0i64.wrapping_sub(*x))),
            _ => Err(
                Error::TypeMismatch {
                    expected: Kind::Number,
                    actual: a.kind(),
                    op: OpKind::Unary(op),
                },
            ),
        },
        UnOp::Not => match a {
            Value::Boolean(x) => Ok(Value::Boolean(!*x)),
            _ => Err(
                Error::TypeMismatch {
                    expected: Kind::Boolean,
                    actual: a.kind(),
                    op: OpKind::Unary(op),
                },
            ),
        },
    }
}

fn num_mismatch_exec(op: BinOp, a: &Value, b: &Value) -> (e: Error)
    ensures
        e == num_mismatch(op, *a, *b),
{
    let ka = a.kind();
    if !matches!(ka, Kind::Number) {
        Error::TypeMismatch { expected: Kind::Number, actual: ka, op: OpKind::Binary(op) }
    } else {
        Error::TypeMismatch { expected: Kind::Number, actual: b.kind(), op: OpKind::Binary(op) }
    }
}

fn cmp_mismatch_exec(op: BinOp, a: &Value, b: &Value) -> (e: Error)
    ensures
        e == cmp_mismatch(op, *a, *b),
{
    let ka = a.kind();
    if matches!(ka, Kind::Number) {
        Error::TypeMismatch { expected: Kind::Number, actual: b.kind(), op: OpKind::Binary(op) }
    } else if matches!(ka, Kind::Str) {
        Error::TypeMismatch { expected: Kind::Str, actual: b.kind(), op: OpKind::Binary(op) }
    } else {
        Error::TypeMismatch { expected: Kind::Number, actual: ka, op: OpKind::Binary(op) }
    }
}

fn bool_mismatch_exec(op: BinOp, a: &Value, b: &Value) -> (e: Error)
    ensures
        e == bool_mismatch(op, *a, *b),
{
    let ka = a.kind();
    if !matches!(ka, Kind::Boolean) {
        Error::TypeMismatch { expected: Kind::Boolean, actual: ka, op: OpKind::Binary(op) }
    } else {
        Error::TypeMismatch { expected: Kind::Boolean, actual: b.kind(), op: OpKind::Binary(op) }
    }
}

} // verus!
