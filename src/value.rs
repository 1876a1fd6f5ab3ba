//! The dynamic value that filters take and return.
use std::collections::HashMap;
use vstd::prelude::*;

verus! {

/// A JSON number. Non-negative integers are held as `UInt`; `Int` holds the
/// negative ones; any other number is kept as its decimal text.
#[derive(Debug, Clone, PartialEq)]
pub enum Number {
    UInt(u64),
    Int(i64),
    Float(String),
}

/// A JSON-like value: null, boolean, number, string, array, or an object
/// whose entries keep their order.
#[derive(Debug, PartialEq)]
pub enum Value {
    Null,
    Bool(bool),
    Number(Number),
    String(String),
    Array(Vec<Value>),
    Object(Vec<(String, Value)>),
}

/// The named arguments handed to every filter call.
pub type Args = HashMap<String, Value>;

impl Number {
    /// The number as a `u64`, when it is a non-negative integer.
    pub open spec fn spec_as_u64(&self) -> Option<u64> {
        match self {
            Number::UInt(n) => Some(*n),
            Number::Int(i) => if *i >= 0 { Some(*i as u64) } else { None },
            Number::Float(_) => None,
        }
    }

    pub fn as_u64(&self) -> (r: Option<u64>)
        ensures
            r == self.spec_as_u64(),
    {
        match self {
            Number::UInt(n) => Some(*n),
            Number::Int(i) => if *i >= 0 { Some(*i as u64) } else { None },
            Number::Float(_) => None,
        }
    }
}

impl Value {
    /// The text of a string value; any other value reads as the empty string.
    pub open spec fn spec_text(&self) -> Seq<char> {
        match self {
            Value::String(s) => s@,
            _ => Seq::empty(),
        }
    }

    /// The value as a `u64`, when it is a non-negative integer.
    pub open spec fn spec_as_u64(&self) -> Option<u64> {
        match self {
            Value::Number(n) => n.spec_as_u64(),
            _ => None,
        }
    }

    pub fn as_u64(&self) -> (r: Option<u64>)
        ensures
            r == self.spec_as_u64(),
    {
        match self {
            Value::Number(n) => n.as_u64(),
            _ => None,
        }
    }

    /// The text of a string value, or `""` for any other value.
    pub fn as_str_or_empty(&self) -> (r: &str)
        ensures
            r@ == self.spec_text(),
    {
        match self {
            Value::String(s) => {
                let r = s.as_str();
                r
            },
            _ => {
                proof {
                    reveal_strlit("");
                }
                ""
            },
        }
    }
}

} // verus!
