//! Runtime values of the stack machine.
//!
//! A number is an IEEE-754 single-precision float, held as its 32-bit pattern.
//! The arithmetic on those patterns is done by `rustc_apfloat`, a software
//! implementation of IEEE-754 with round-to-nearest-even.
use vstd::prelude::*;
use rustc_apfloat::Float;
use rustc_apfloat::ieee::Single;
use crate::errors::ReloxError;

verus! {

/// A tagged scalar.
#[derive(Debug, Clone, Copy, PartialEq, Eq, Structural)]
pub enum Value {
    Bool(bool),
    /// The bit pattern of a single-precision float.
    Number(u32),
    Nil,
}

impl Default for Value {
    fn default() -> (v: Self)
        ensures
            v == Value::Nil,
    {
        Value::Nil
    }
}

/// The sign bit of a single-precision float.
pub const SIGN_BIT: u32 = 0x8000_0000;

/// The bits of the correctly rounded sum of two floats.
pub uninterp spec fn single_sum(a: u32, b: u32) -> u32;

/// The bits of the correctly rounded difference of two floats.
pub uninterp spec fn single_difference(a: u32, b: u32) -> u32;

/// The bits of the correctly rounded product of two floats.
pub uninterp spec fn single_product(a: u32, b: u32) -> u32;

/// The bits of the correctly rounded quotient of two floats.
pub uninterp spec fn single_quotient(a: u32, b: u32) -> u32;

/// Relies on `rustc_apfloat`'s `Add` for `ieee::Single`: its value depends on the
/// operands alone.
#[verifier::external_body]
fn add_bits(a: u32, b: u32) -> (r: u32)
    ensures
        r == single_sum(a, b),
{
    (Single::from_bits(a as u128) + Single::from_bits(b as u128)).value.to_bits() as u32
}

/// Relies on `rustc_apfloat`'s `Sub` for `ieee::Single`: its value depends on the
/// operands alone.
#[verifier::external_body]
fn sub_bits(a: u32, b: u32) -> (r: u32)
    ensures
        r == single_difference(a, b),
{
    (Single::from_bits(a as u128) - Single::from_bits(b as u128)).value.to_bits() as u32
}

/// Relies on `rustc_apfloat`'s `Mul` for `ieee::Single`: its value depends on the
/// operands alone.
#[verifier::external_body]
fn mul_bits(a: u32, b: u32) -> (r: u32)
    ensures
        r == single_product(a, b),
{
    (Single::from_bits(a as u128) * Single::from_bits(b as u128)).value.to_bits() as u32
}

/// Relies on `rustc_apfloat`'s `Div` for `ieee::Single`: its value depends on the
/// operands alone.
#[verifier::external_body]
fn div_bits(a: u32, b: u32) -> (r: u32)
    ensures
        r == single_quotient(a, b),
{
    (Single::from_bits(a as u128) / Single::from_bits(b as u128)).value.to_bits() as u32
}

/// The four binary arithmetic operators of the language.
#[derive(Debug, Clone, Copy, PartialEq, Eq, Structural)]
pub enum ArithOp {
    Add,
    Subtract,
    Multiply,
    Divide,
}

/// The bits of `a op b`.
pub open spec fn spec_arith(op: ArithOp, a: u32, b: u32) -> u32 {
    match op {
        ArithOp::Add => single_sum(a, b),
        ArithOp::Subtract => single_difference(a, b),
        ArithOp::Multiply => single_product(a, b),
        ArithOp::Divide => single_quotient(a, b),
    }
}

/// What `lhs op rhs` gives: a number when both operands are numbers, else nothing.
pub open spec fn spec_binary(op: ArithOp, lhs: Value, rhs: Value) -> Option<Value> {
    match (lhs, rhs) {
        (Value::Number(a), Value::Number(b)) => Some(Value::Number(spec_arith(op, a, b))),
        _ => None,
    }
}

/// What `-v` gives: the number with its sign flipped, or nothing for a non-number.
pub open spec fn spec_negate(v: Value) -> Option<Value> {
    match v {
        Value::Number(a) => Some(Value::Number(a ^ SIGN_BIT)),
        _ => None,
    }
}

impl Value {
    pub open spec fn is_number(&self) -> bool {
        self is Number
    }

    /// Applies one arithmetic operator; a non-number operand is a fatal error.
    pub fn binary(self, op: ArithOp, rhs: Value) -> (r: Result<Value, ReloxError>)
        ensures
            r is Ok <==> spec_binary(op, self, rhs) is Some,
            r matches Ok(v) ==> spec_binary(op, self, rhs) == Some(v),
            r matches Err(e) ==> e is FatalError,
    {
        match (self, rhs) {
            (Value::Number(a), Value::Number(b)) => {
                let bits = match op {
                    ArithOp::Add => add_bits(a, b),
                    ArithOp::Subtract => sub_bits(a, b),
                    ArithOp::Multiply => mul_bits(a, b),
                    ArithOp::Divide => div_bits(a, b),
                };
                Ok(Value::Number(bits))
            },
            _ => {
                let message = match op {
                    ArithOp::Add => "Tried to add oranges with apples",
                    ArithOp::Subtract => "Tried to substract oranges with apples",
                    ArithOp::Multiply => "Tried to multiply oranges with apples",
                    ArithOp::Divide => "Tried to divide oranges with apples",
                };
                Err(ReloxError::new_fatal_error(message.to_string()))
            },
        }
    }

    pub fn add(self, rhs: Value) -> (r: Result<Value, ReloxError>)
        ensures
            r is Ok <==> spec_binary(ArithOp::Add, self, rhs) is Some,
            r matches Ok(v) ==> spec_binary(ArithOp::Add, self, rhs) == Some(v),
            r matches Err(e) ==> e is FatalError,
    {
        self.binary(ArithOp::Add, rhs)
    }

    pub fn sub(self, rhs: Value) -> (r: Result<Value, ReloxError>)
        ensures
            r is Ok <==> spec_binary(ArithOp::Subtract, self, rhs) is Some,
            r matches Ok(v) ==> spec_binary(ArithOp::Subtract, self, rhs) == Some(v),
            r matches Err(e) ==> e is FatalError,
    {
        self.binary(ArithOp::Subtract, rhs)
    }

    pub fn mul(self, rhs: Value) -> (r: Result<Value, ReloxError>)
        ensures
            r is Ok <==> spec_binary(ArithOp::Multiply, self, rhs) is Some,
            r matches Ok(v) ==> spec_binary(ArithOp::Multiply, self, rhs) == Some(v),
            r matches Err(e) ==> e is FatalError,
    {
        self.binary(ArithOp::Multiply, rhs)
    }

    pub fn div(self, rhs: Value) -> (r: Result<Value, ReloxError>)
        ensures
            r is Ok <==> spec_binary(ArithOp::Divide, self, rhs) is Some,
            r matches Ok(v) ==> spec_binary(ArithOp::Divide, self, rhs) == Some(v),
            r matches Err(e) ==> e is FatalError,
    {
        self.binary(ArithOp::Divide, rhs)
    }

    /// Flips the sign of a number; a non-number is a fatal error.
    pub fn neg(self) -> (r: Result<Value, ReloxError>)
        ensures
            r is Ok <==> spec_negate(self) is Some,
            r matches Ok(v) ==> spec_negate(self) == Some(v),
            r matches Err(e) ==> e is FatalError,
    {
        match self {
            Value::Number(a) => Ok(Value::Number(a ^ SIGN_BIT)),
            _ => Err(ReloxError::new_fatal_error("Tried to negate unegable(?)".to_string())),
        }
    }
}

} // verus!
