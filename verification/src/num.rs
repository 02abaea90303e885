//! Arithmetic and bitwise operators on values.
//!
//! What is decided here is which operation applies to two operands and, where
//! it is one on integers, its result. Floating-point arithmetic is left to the
//! caller, who is told which operands to convert and compute with.

use vstd::prelude::*;
use crate::value::Value;

verus! {

/// The quotient of `a` by `b` rounded towards zero.
pub open spec fn trunc_div(a: int, b: int) -> int {
    let q = (if a >= 0 {
        a
    } else {
        -a
    }) / (if b >= 0 {
        b
    } else {
        -b
    });
    if (a >= 0) == (b > 0) {
        q
    } else {
        -q
    }
}

/// The remainder of the division of `a` by `b` rounded towards zero; it has
/// the sign of `a`.
pub open spec fn trunc_rem(a: int, b: int) -> int {
    a - b * trunc_div(a, b)
}

/// The quotient rounded towards zero, wrapped around to `i64::MIN` in the one
/// case where it does not fit an `i64`: `i64::MIN / -1`.
pub open spec fn wrapped_quotient(lhs: i64, rhs: i64) -> i64 {
    if lhs == i64::MIN && rhs == -1 {
        i64::MIN
    } else {
        trunc_div(lhs as int, rhs as int) as i64
    }
}

/// `i64::wrapping_rem`: the remainder of the division rounded towards zero,
/// which is 0 where the quotient would not fit. Division by zero panics and is
/// left out.
pub assume_specification[ i64::wrapping_rem ](lhs: i64, rhs: i64) -> (r: i64)
    requires
        rhs != 0,
    ensures
        r == trunc_rem(lhs as int, rhs as int),
;

/// `i64::wrapping_div`: the quotient rounded towards zero, which wraps around
/// to `i64::MIN` in the one case where it does not fit, `i64::MIN / -1`.
/// Division by zero panics and is left out.
pub assume_specification[ i64::wrapping_div ](lhs: i64, rhs: i64) -> (r: i64)
    requires
        rhs != 0,
    ensures
        r == wrapped_quotient(lhs, rhs),
;

/// What an operator makes of two operands.
#[derive(Debug, Clone, Copy, PartialEq, Eq, Structural)]
pub enum Outcome {
    /// The result.
    Value(Value),
    /// The operands are numbers, and the result is to be computed on them as
    /// floating-point numbers.
    Float { lhs: Value, rhs: Value },
}

/// An arithmetic operator.
pub trait ArithOp {
    /// Whether the operator is defined on two integers: it is unless it
    /// divides by zero.
    spec fn int_defined(lhs: i64, rhs: i64) -> bool;

    /// What the operator gives on two integers, or `None` when it treats
    /// integers as floating-point numbers.
    spec fn int_spec(lhs: i64, rhs: i64) -> Option<Value>;

    /// Returns whether the operator is defined on two integers.
    fn can_apply(lhs: i64, rhs: i64) -> (b: bool)
        ensures
            b == Self::int_defined(lhs, rhs),
    ;

    /// Applies the operator to two integers.
    fn int_op(lhs: i64, rhs: i64) -> (v: Option<Value>)
        requires
            Self::int_defined(lhs, rhs),
        ensures
            v == Self::int_spec(lhs, rhs),
    ;
}

/// Applies an arithmetic operator to two values. There is no result if an
/// operand is not a number. Two integers give what the operator gives on
/// integers; any other two numbers are to be computed with as floating-point
/// numbers.
pub fn op_arith<Op: ArithOp>(lhs: Value, rhs: Value) -> (r: Option<Outcome>)
    requires
        lhs is Integer && rhs is Integer ==> Op::int_defined(lhs->Integer_0, rhs->Integer_0),
    ensures
        r == if !lhs.is_number() || !rhs.is_number() {
            None
        } else if lhs is Integer && rhs is Integer && Op::int_spec(
            lhs->Integer_0,
            rhs->Integer_0,
        ) is Some {
            Some(Outcome::Value(Op::int_spec(lhs->Integer_0, rhs->Integer_0)->Some_0))
        } else {
            Some(Outcome::Float { lhs, rhs })
        },
{
    match (lhs, rhs) {
        (Value::Integer(l), Value::Integer(r)) => {
            match Op::int_op(l, r) {
                Some(v) => {
                    return Some(Outcome::Value(v));
                },
                None => {
                    return Some(Outcome::Float { lhs, rhs });
                },
            }
        },
        _ => {},
    }
    match lhs {
        Value::Integer(_) => {},
        Value::Float(_) => {},
        _ => {
            return None;
        },
    }
    match rhs {
        Value::Integer(_) => {},
        Value::Float(_) => {},
        _ => {
            return None;
        },
    }
    Some(Outcome::Float { lhs, rhs })
}

/// Addition.
pub struct Add;

impl ArithOp for Add {
    open spec fn int_defined(lhs: i64, rhs: i64) -> bool {
        true
    }

    fn can_apply(lhs: i64, rhs: i64) -> (b: bool) {
        true
    }

    open spec fn int_spec(lhs: i64, rhs: i64) -> Option<Value> {
        Some(Value::Integer(lhs.wrapping_add(rhs)))
    }

    fn int_op(lhs: i64, rhs: i64) -> (v: Option<Value>) {
        Some(Value::Integer(lhs.wrapping_add(rhs)))
    }
}

/// Subtraction.
pub struct Sub;

impl ArithOp for Sub {
    open spec fn int_defined(lhs: i64, rhs: i64) -> bool {
        true
    }

    fn can_apply(lhs: i64, rhs: i64) -> (b: bool) {
        true
    }

    open spec fn int_spec(lhs: i64, rhs: i64) -> Option<Value> {
        Some(Value::Integer(lhs.wrapping_sub(rhs)))
    }

    fn int_op(lhs: i64, rhs: i64) -> (v: Option<Value>) {
        Some(Value::Integer(lhs.wrapping_sub(rhs)))
    }
}

/// Multiplication.
pub struct Mul;

impl ArithOp for Mul {
    open spec fn int_defined(lhs: i64, rhs: i64) -> bool {
        true
    }

    fn can_apply(lhs: i64, rhs: i64) -> (b: bool) {
        true
    }

    open spec fn int_spec(lhs: i64, rhs: i64) -> Option<Value> {
        Some(Value::Integer(lhs.wrapping_mul(rhs)))
    }

    fn int_op(lhs: i64, rhs: i64) -> (v: Option<Value>) {
        Some(Value::Integer(lhs.wrapping_mul(rhs)))
    }
}

/// Remainder.
pub struct Mod;

impl ArithOp for Mod {
    open spec fn int_defined(lhs: i64, rhs: i64) -> bool {
        rhs != 0
    }

    fn can_apply(lhs: i64, rhs: i64) -> (b: bool) {
        rhs != 0
    }

    open spec fn int_spec(lhs: i64, rhs: i64) -> Option<Value> {
        Some(Value::Integer(trunc_rem(lhs as int, rhs as int) as i64))
    }

    fn int_op(lhs: i64, rhs: i64) -> (v: Option<Value>) {
        Some(Value::Integer(lhs.wrapping_rem(rhs)))
    }
}

/// Exponentiation. Its result is a floating-point number whatever the
/// operands.
pub struct Pow;

impl ArithOp for Pow {
    open spec fn int_defined(lhs: i64, rhs: i64) -> bool {
        true
    }

    fn can_apply(lhs: i64, rhs: i64) -> (b: bool) {
        true
    }

    open spec fn int_spec(lhs: i64, rhs: i64) -> Option<Value> {
        None
    }

    fn int_op(lhs: i64, rhs: i64) -> (v: Option<Value>) {
        None
    }
}

/// Division. Its result is a floating-point number whatever the operands.
pub struct Div;

impl ArithOp for Div {
    open spec fn int_defined(lhs: i64, rhs: i64) -> bool {
        true
    }

    fn can_apply(lhs: i64, rhs: i64) -> (b: bool) {
        true
    }

    open spec fn int_spec(lhs: i64, rhs: i64) -> Option<Value> {
        None
    }

    fn int_op(lhs: i64, rhs: i64) -> (v: Option<Value>) {
        None
    }
}

/// Floor division.
pub struct IDiv;

impl ArithOp for IDiv {
    open spec fn int_defined(lhs: i64, rhs: i64) -> bool {
        rhs != 0
    }

    fn can_apply(lhs: i64, rhs: i64) -> (b: bool) {
        rhs != 0
    }

    open spec fn int_spec(lhs: i64, rhs: i64) -> Option<Value> {
        Some(Value::Integer(wrapped_quotient(lhs, rhs)))
    }

    fn int_op(lhs: i64, rhs: i64) -> (v: Option<Value>) {
        Some(Value::Integer(lhs.wrapping_div(rhs)))
    }
}

/// A bitwise operator.
pub trait BitOp {
    /// What the operator gives on two integers.
    spec fn int_spec(lhs: i64, rhs: i64) -> i64;

    /// Applies the operator to two integers.
    fn int_op(lhs: i64, rhs: i64) -> (v: Value)
        ensures
            v == Value::Integer(Self::int_spec(lhs, rhs)),
    ;
}

/// Applies a bitwise operator to two values. There is no result if an operand
/// is not a number. Two integers give what the operator gives on them; where
/// an operand is a floating-point number, the caller is to convert it to an
/// integer, if it has an integral value, and apply the operator.
pub fn op_bit<Op: BitOp>(lhs: Value, rhs: Value) -> (r: Option<Outcome>)
    ensures
        r == if !lhs.is_number() || !rhs.is_number() {
            None
        } else if lhs is Integer && rhs is Integer {
            Some(Outcome::Value(Value::Integer(Op::int_spec(lhs->Integer_0, rhs->Integer_0))))
        } else {
            Some(Outcome::Float { lhs, rhs })
        },
{
    let l = match lhs {
        Value::Integer(v) => Some(v),
        Value::Float(_) => None,
        _ => {
            return None;
        },
    };
    let r = match rhs {
        Value::Integer(v) => Some(v),
        Value::Float(_) => None,
        _ => {
            return None;
        },
    };
    match (l, r) {
        (Some(l), Some(r)) => Some(Outcome::Value(Op::int_op(l, r))),
        _ => Some(Outcome::Float { lhs, rhs }),
    }
}

/// Bitwise and.
pub struct BAnd;

impl BitOp for BAnd {
    open spec fn int_spec(lhs: i64, rhs: i64) -> i64 {
        lhs & rhs
    }

    fn int_op(lhs: i64, rhs: i64) -> (v: Value) {
        Value::Integer(lhs & rhs)
    }
}

/// Bitwise or.
pub struct BOr;

impl BitOp for BOr {
    open spec fn int_spec(lhs: i64, rhs: i64) -> i64 {
        lhs | rhs
    }

    fn int_op(lhs: i64, rhs: i64) -> (v: Value) {
        Value::Integer(lhs | rhs)
    }
}

/// Bitwise exclusive or.
pub struct BXor;

impl BitOp for BXor {
    open spec fn int_spec(lhs: i64, rhs: i64) -> i64 {
        lhs ^ rhs
    }

    fn int_op(lhs: i64, rhs: i64) -> (v: Value) {
        Value::Integer(lhs ^ rhs)
    }
}

/// The low 32 bits of an integer, as a shift count.
pub open spec fn shift_count(rhs: i64) -> u32 {
    rhs as u32
}

/// Shift left, by the low bits of the right operand.
pub struct Shl;

impl BitOp for Shl {
    open spec fn int_spec(lhs: i64, rhs: i64) -> i64 {
        lhs.wrapping_shl(shift_count(rhs))
    }

    fn int_op(lhs: i64, rhs: i64) -> (v: Value) {
        Value::Integer(lhs.wrapping_shl(#[verifier::truncate] (rhs as u32)))
    }
}

/// Shift right, by the low bits of the right operand.
pub struct Shr;

impl BitOp for Shr {
    open spec fn int_spec(lhs: i64, rhs: i64) -> i64 {
        lhs.wrapping_shr(shift_count(rhs))
    }

    fn int_op(lhs: i64, rhs: i64) -> (v: Value) {
        Value::Integer(lhs.wrapping_shr(#[verifier::truncate] (rhs as u32)))
    }
}

} // verus!
