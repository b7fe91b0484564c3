//! Hash-indexed mappings from symbols to values.
use crate::error::{err_eval, eval_error, RuntimeError, RuntimeErrorView};
use crate::memory::Ptr;
use crate::symbol::Symbol;
use crate::taggedptr::Value;
use std::collections::HashMap;
use vstd::prelude::*;

verus! {

broadcast use vstd::std_specs::hash::group_hash_axioms;

/// A mapping from symbols to values, indexed by hashing. The global bindings
/// of the virtual machine are one.
#[derive(Debug, PartialEq, Eq)]
pub struct Dict {
    bindings: HashMap<usize, Value>,
}

impl View for Dict {
    type V = Map<usize, Value>;

    /// The bindings, each under the ordinal of its symbol.
    closed spec fn view(&self) -> Map<usize, Value> {
        self.bindings@
    }
}

/// The error for a key that is no symbol.
pub open spec fn key_error() -> RuntimeErrorView {
    eval_error("Key is not a symbol"@)
}

/// The error for a key without a binding.
pub open spec fn lookup_error() -> RuntimeErrorView {
    eval_error("Key not found"@)
}

impl Dict {
    /// The empty mapping.
    pub fn new() -> (dict: Dict)
        ensures
            dict@ == Map::<usize, Value>::empty(),
    {
        Dict { bindings: HashMap::new() }
    }

    /// The value bound to `key`; an error where `key` is no symbol or has no
    /// binding.
    pub fn lookup(&self, key: Value) -> (r: Result<Value, RuntimeError>)
        ensures
            match key {
                Value::Symbol(s) => if self@.contains_key(s.index()) {
                    r == Ok::<Value, RuntimeError>(self@[s.index()])
                } else {
                    r is Err && r->Err_0@ == lookup_error()
                },
                _ => r is Err && r->Err_0@ == key_error(),
            },
    {
        match key {
            Value::Symbol(s) => {
                let k = s.ordinal();
                match self.bindings.get(&k) {
                    Some(value) => Ok(*value),
                    None => Err(err_eval("Key not found")),
                }
            },
            _ => Err(err_eval("Key is not a symbol")),
        }
    }

    /// Binds `key` to `value`, in place of any earlier binding; an error, and
    /// no change, where `key` is no symbol.
    pub fn assoc(&mut self, key: Value, value: Value) -> (r: Result<(), RuntimeError>)
        ensures
            match key {
                Value::Symbol(s) => r is Ok && final(self)@ == old(self)@.insert(s.index(), value),
                _ => r is Err && r->Err_0@ == key_error() && final(self)@ == old(self)@,
            },
    {
        match key {
            Value::Symbol(s) => {
                self.bindings.insert(s.ordinal(), value);
                Ok(())
            },
            _ => Err(err_eval("Key is not a symbol")),
        }
    }

    /// Whether `key` is a symbol with a binding.
    pub fn has_key(&self, key: Value) -> (bound: bool)
        ensures
            bound == (key matches Value::Symbol(s) && self@.contains_key(s.index())),
    {
        match key {
            Value::Symbol(s) => {
                let k = s.ordinal();
                self.bindings.contains_key(&k)
            },
            _ => false,
        }
    }
}

} // verus!
