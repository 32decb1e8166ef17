//! Witness values that may not be known yet.

use crate::field::add_mod;
use crate::field::mul_mod;
use crate::field::neg_mod;
use crate::field::sub_mod;
use crate::field::Fp;
use vstd::prelude::*;

verus! {

/// A witness value: a field element, or nothing yet, as in a pass that only
/// lays a circuit out.
#[derive(Clone, Copy, Debug, PartialEq, Eq, Structural)]
pub enum Value {
    Unknown,
    Known(Fp),
}

impl View for Value {
    type V = Option<nat>;

    open spec fn view(&self) -> Option<nat> {
        match self {
            Value::Unknown => None,
            Value::Known(x) => Some(x@),
        }
    }
}

/// The sum of two values, known when both are.
pub open spec fn add_values(a: Option<nat>, b: Option<nat>) -> Option<nat> {
    match (a, b) {
        (Some(x), Some(y)) => Some(add_mod(x, y)),
        _ => None,
    }
}

/// The difference of two values, known when both are.
pub open spec fn sub_values(a: Option<nat>, b: Option<nat>) -> Option<nat> {
    match (a, b) {
        (Some(x), Some(y)) => Some(sub_mod(x, y)),
        _ => None,
    }
}

/// The product of two values, known when both are.
pub open spec fn mul_values(a: Option<nat>, b: Option<nat>) -> Option<nat> {
    match (a, b) {
        (Some(x), Some(y)) => Some(mul_mod(x, y)),
        _ => None,
    }
}

/// The negation of a value, known when the value is.
pub open spec fn neg_value(a: Option<nat>) -> Option<nat> {
    match a {
        Some(x) => Some(neg_mod(x)),
        None => None,
    }
}

impl Value {
    /// A known value.
    pub fn known(x: Fp) -> (r: Value)
        ensures
            r == Value::Known(x),
    {
        Value::Known(x)
    }

    /// The value that is not known.
    pub fn unknown() -> (r: Value)
        ensures
            r == Value::Unknown,
    {
        Value::Unknown
    }

    /// Whether the value is known.
    pub fn is_known(&self) -> (r: bool)
        ensures
            r == (self@ is Some),
    {
        match self {
            Value::Known(_) => true,
            Value::Unknown => false,
        }
    }

    /// The sum of the two values.
    pub fn add(&self, rhs: &Value) -> (r: Value)
        ensures
            r@ == add_values(self@, rhs@),
    {
        match (self, rhs) {
            (Value::Known(x), Value::Known(y)) => Value::Known(x.add(y)),
            _ => Value::Unknown,
        }
    }

    /// The difference of the two values.
    pub fn sub(&self, rhs: &Value) -> (r: Value)
        ensures
            r@ == sub_values(self@, rhs@),
    {
        match (self, rhs) {
            (Value::Known(x), Value::Known(y)) => Value::Known(x.sub(y)),
            _ => Value::Unknown,
        }
    }

    /// The product of the two values.
    pub fn mul(&self, rhs: &Value) -> (r: Value)
        ensures
            r@ == mul_values(self@, rhs@),
    {
        match (self, rhs) {
            (Value::Known(x), Value::Known(y)) => Value::Known(x.mul(y)),
            _ => Value::Unknown,
        }
    }

    /// The negation of the value.
    pub fn neg(&self) -> (r: Value)
        ensures
            r@ == neg_value(self@),
    {
        match self {
            Value::Known(x) => Value::Known(x.neg()),
            Value::Unknown => Value::Unknown,
        }
    }
}

} // verus!
