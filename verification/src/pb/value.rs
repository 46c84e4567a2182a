//! The variants a set value can take.

use vstd::prelude::*;

verus! {

/// A set value: text, bytes, integer, float or boolean.
///
/// A float is held as its IEEE 754 bit pattern, so that two floats are the same value exactly
/// when their bits agree.
#[derive(Clone, Debug, PartialEq, PartialOrd)]
pub enum Value {
    String(String),
    Binary(Vec<u8>),
    Integer(i64),
    Float(u64),
    Bool(bool),
}

/// What a [`Value`] stands for.
pub enum ValueView {
    String(Seq<char>),
    Binary(Seq<u8>),
    Integer(i64),
    Float(u64),
    Bool(bool),
}

impl View for Value {
    type V = ValueView;

    open spec fn view(&self) -> ValueView {
        match *self {
            Value::String(s) => ValueView::String(s@),
            Value::Binary(b) => ValueView::Binary(b@),
            Value::Integer(i) => ValueView::Integer(i),
            Value::Float(f) => ValueView::Float(f),
            Value::Bool(b) => ValueView::Bool(b),
        }
    }
}

impl Value {
    /// A copy that stands for the same value.
    pub fn duplicate(&self) -> (copy: Value)
        ensures
            copy@ == self@,
    {
        match self {
            Value::String(s) => Value::String(s.clone()),
            Value::Binary(b) => Value::Binary(b.clone()),
            Value::Integer(i) => Value::Integer(*i),
            Value::Float(f) => Value::Float(*f),
            Value::Bool(b) => Value::Bool(*b),
        }
    }
}

} // verus!
