//! Cons cells.
use crate::error::{err_eval, eval_error, RuntimeError, RuntimeErrorView};
use crate::heap::{HeapView, MutatorView};
use crate::taggedptr::Value;
use vstd::prelude::*;

verus! {

/// The error for an empty operand list where one operand is due.
pub open spec fn too_few_one_error() -> RuntimeErrorView {
    eval_error("Expected no less than one parameter"@)
}

/// The error for more than one operand where one is due.
pub open spec fn too_many_one_error() -> RuntimeErrorView {
    eval_error("Expected no more than one parameter"@)
}

/// The error for fewer than two operands where two are due.
pub open spec fn too_few_two_error() -> RuntimeErrorView {
    eval_error("Expected no less than two parameters"@)
}

/// The error for more than two operands where two are due.
pub open spec fn too_many_two_error() -> RuntimeErrorView {
    eval_error("Expected no more than two parameters"@)
}

/// The single item of the list `list`: an error where `list` is no pair,
/// and where anything but `Nil` follows the first item.
pub open spec fn one_from_pair_list(heap: HeapView, list: Value) -> Result<
    Value,
    RuntimeErrorView,
> {
    match list {
        Value::Pair(p) => if heap.pair(p).second is Nil {
            Ok(heap.pair(p).first)
        } else {
            Err(too_many_one_error())
        },
        _ => Err(too_few_one_error()),
    }
}

/// The two items of the list `list`: an error where the list has fewer,
/// and where anything but `Nil` follows the second.
pub open spec fn two_from_pair_list(heap: HeapView, list: Value) -> Result<
    (Value, Value),
    RuntimeErrorView,
> {
    match list {
        Value::Pair(p) => match heap.pair(p).second {
            Value::Pair(q) => if heap.pair(q).second is Nil {
                Ok((heap.pair(p).first, heap.pair(q).first))
            } else {
                Err(too_many_two_error())
            },
            _ => Err(too_few_two_error()),
        },
        _ => Err(too_few_two_error()),
    }
}

/// The single item of a list of one.
pub fn get_one_from_pair_list(mem: &MutatorView, list: Value) -> (r: Result<Value, RuntimeError>)
    requires
        mem.wf(),
        mem@.valid(list),
    ensures
        match one_from_pair_list(mem@, list) {
            Ok(item) => r is Ok && r->Ok_0 == item && mem@.valid(item),
            Err(e) => r is Err && r->Err_0@ == e,
        },
{
    match list {
        Value::Pair(p) => {
            let pair = mem.pair(p);
            match pair.second {
                Value::Nil => Ok(pair.first),
                _ => Err(err_eval("Expected no more than one parameter")),
            }
        },
        _ => Err(err_eval("Expected no less than one parameter")),
    }
}

/// The two items of a list of two.
pub fn get_two_from_pair_list(mem: &MutatorView, list: Value) -> (r: Result<
    (Value, Value),
    RuntimeError,
>)
    requires
        mem.wf(),
        mem@.valid(list),
    ensures
        match two_from_pair_list(mem@, list) {
            Ok(items) => r is Ok && r->Ok_0 == items && mem@.valid(items.0) && mem@.valid(
                items.1,
            ),
            Err(e) => r is Err && r->Err_0@ == e,
        },
{
    match list {
        Value::Pair(p) => {
            let pair = mem.pair(p);
            match pair.second {
                Value::Pair(q) => {
                    let second_pair = mem.pair(q);
                    match second_pair.second {
                        Value::Nil => Ok((pair.first, second_pair.first)),
                        _ => Err(err_eval("Expected no more than two parameters")),
                    }
                },
                _ => Err(err_eval("Expected no less than two parameters")),
            }
        },
        _ => Err(err_eval("Expected no less than two parameters")),
    }
}

/// A cons cell: two slots, each of which holds a value and can be overwritten
/// in place.
#[derive(Clone, Copy, Debug, PartialEq, Eq)]
pub struct Pair {
    pub first: Value,
    pub second: Value,
}

impl View for Pair {
    type V = Pair;

    open spec fn view(&self) -> Pair {
        *self
    }
}

impl Pair {
    /// A pair with `Nil` in both slots.
    pub fn new() -> (pair: Pair)
        ensures
            pair == (Pair { first: Value::Nil, second: Value::Nil }),
    {
        Pair { first: Value::Nil, second: Value::Nil }
    }
}

} // verus!
