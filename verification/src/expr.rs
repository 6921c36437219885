//! Functions of the expression language that rules are written in.

use vstd::prelude::*;

verus! {

/// A floating-point number, held as the 64 bits of its IEEE 754 form.
/// Nothing here computes with it.
#[derive(Clone, Copy, Debug, PartialEq, Eq, Structural)]
pub struct FloatBits(pub u64);

/// A value of the expression language.
#[derive(Debug)]
pub enum Variable {
    String(String),
    Integer(i64),
    Float(FloatBits),
    Array(Vec<Variable>),
}

/// The value that stands for a truth value: 1 for true, 0 for false.
pub open spec fn truth(value: bool) -> i64 {
    if value {
        1
    } else {
        0
    }
}

/// Whether a value is empty: a text without characters or an array
/// without items. Numbers are never empty.
pub open spec fn is_empty(value: Variable) -> bool {
    match value {
        Variable::String(text) => text@.len() == 0,
        Variable::Integer(_) | Variable::Float(_) => false,
        Variable::Array(items) => items@.len() == 0,
    }
}

/// Whether a value is a number.
pub open spec fn is_number(value: Variable) -> bool {
    value is Integer || value is Float
}

impl Variable {
    /// The value that stands for a truth value.
    pub fn from_bool(value: bool) -> (variable: Variable)
        ensures
            variable == Variable::Integer(truth(value)),
    {
        if value {
            Variable::Integer(1)
        } else {
            Variable::Integer(0)
        }
    }
}

/// Tells whether the first argument is empty.
pub fn fn_is_empty(v: Vec<Variable>) -> (result: Variable)
    requires
        v.len() > 0,
    ensures
        result == Variable::Integer(truth(is_empty(v[0]))),
{
    let empty = match &v[0] {
        Variable::String(s) => s.as_str().is_empty(),
        Variable::Integer(_) | Variable::Float(_) => false,
        Variable::Array(a) => a.len() == 0,
    };
    Variable::from_bool(empty)
}

/// Tells whether the first argument is a number.
pub fn fn_is_number(v: Vec<Variable>) -> (result: Variable)
    requires
        v.len() > 0,
    ensures
        result == Variable::Integer(truth(is_number(v[0]))),
{
    let number = match &v[0] {
        Variable::Integer(_) | Variable::Float(_) => true,
        _ => false,
    };
    Variable::from_bool(number)
}

} // verus!
