//! Tagged values: what a register, a pair slot or a literal holds.
use crate::bytecode::ByteCode;
use crate::dict::Dict;
use crate::list::List;
use crate::memory::Ptr;
use crate::pair::Pair;
use crate::symbol::Symbol;
use crate::text::Text;
use crate::vm::{CallFrame, Function};
use vstd::prelude::*;

verus! {

/// A number on the heap.
#[derive(Clone, Copy, Debug, PartialEq, Eq)]
pub struct NumberObject {
    pub value: i64,
}

impl View for NumberObject {
    type V = NumberObject;

    open spec fn view(&self) -> NumberObject {
        *self
    }
}

/// A tagged value: `Nil`, or a tag and the handle of an object.
///
/// Two values are equal exactly when they are the same immediate or name the
/// identical object. What the objects hold plays no part.
#[derive(Clone, Copy, Debug, PartialEq, Eq)]
pub enum Value {
    Nil,
    Symbol(Ptr<Symbol>),
    Pair(Ptr<Pair>),
    Number(Ptr<NumberObject>),
    Text(Ptr<Text>),
    List(Ptr<List>),
    Dict(Ptr<Dict>),
    ByteCode(Ptr<ByteCode>),
    Function(Ptr<Function>),
    CallFrame(Ptr<CallFrame>),
}

impl Value {
    /// Whether the value is a pair.
    pub fn is_pair(&self) -> (b: bool)
        ensures
            b == (*self is Pair),
    {
        match self {
            Value::Pair(_) => true,
            _ => false,
        }
    }

    /// Whether the value is `Nil`.
    pub fn is_nil(&self) -> (b: bool)
        ensures
            b == (*self is Nil),
    {
        match self {
            Value::Nil => true,
            _ => false,
        }
    }

    /// Identity comparison: the same immediate, or the same tag and object.
    pub fn is(&self, other: Value) -> (same: bool)
        ensures
            same == (*self == other),
    {
        match (*self, other) {
            (Value::Nil, Value::Nil) => true,
            (Value::Symbol(a), Value::Symbol(b)) => a.is(b),
            (Value::Pair(a), Value::Pair(b)) => a.is(b),
            (Value::Number(a), Value::Number(b)) => a.is(b),
            (Value::Text(a), Value::Text(b)) => a.is(b),
            (Value::List(a), Value::List(b)) => a.is(b),
            (Value::Dict(a), Value::Dict(b)) => a.is(b),
            (Value::ByteCode(a), Value::ByteCode(b)) => a.is(b),
            (Value::Function(a), Value::Function(b)) => a.is(b),
            (Value::CallFrame(a), Value::CallFrame(b)) => a.is(b),
            _ => false,
        }
    }
}

} // verus!
