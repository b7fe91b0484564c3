//! Growable, indexed sequences of values.
use crate::array::ArraySize;
use crate::error::{alloc_error, eval_error, err_eval, ErrorKind, RuntimeError, RuntimeErrorView};
use crate::memory::AllocError;
use crate::taggedptr::Value;
use vstd::prelude::*;

verus! {

/// A growable sequence of values, addressed by index. The register stack of
/// the virtual machine is one.
#[derive(Debug, PartialEq, Eq)]
pub struct List {
    items: Vec<Value>,
}

impl View for List {
    type V = Seq<Value>;

    closed spec fn view(&self) -> Seq<Value> {
        self.items@
    }
}

/// The error for an index at or beyond a container's length.
pub open spec fn bounds_error() -> RuntimeErrorView {
    eval_error("Index out of bounds"@)
}

/// The error for a container that cannot grow any further.
pub open spec fn full_error() -> RuntimeErrorView {
    alloc_error(AllocError::BadRequest)
}

impl List {
    /// A list's length always fits an array size.
    pub closed spec fn wf(&self) -> bool {
        self.items@.len() <= ArraySize::MAX
    }

    /// A well-formed list's length fits an array size.
    pub proof fn lemma_wf_bounds(&self)
        requires
            self.wf(),
        ensures
            self@.len() <= ArraySize::MAX,
    {
    }

    /// The empty list.
    pub fn new() -> (list: List)
        ensures
            list.wf(),
            list@ == Seq::<Value>::empty(),
    {
        List { items: Vec::new() }
    }

    /// The number of items.
    pub fn length(&self) -> (n: ArraySize)
        requires
            self.wf(),
        ensures
            n == self@.len(),
    {
        self.items.len() as ArraySize
    }

    /// The item at `index`, or a bounds error.
    pub fn get(&self, index: ArraySize) -> (r: Result<Value, RuntimeError>)
        ensures
            index < self@.len() ==> r == Ok::<Value, RuntimeError>(self@[index as int]),
            index >= self@.len() ==> r is Err && r->Err_0@ == bounds_error(),
    {
        if (index as usize) < self.items.len() {
            Ok(self.items[index as usize])
        } else {
            Err(err_eval("Index out of bounds"))
        }
    }

    /// Overwrites the item at `index`, or fails with a bounds error and
    /// leaves the list as it is.
    pub fn set(&mut self, index: ArraySize, item: Value) -> (r: Result<(), RuntimeError>)
        requires
            old(self).wf(),
        ensures
            final(self).wf(),
            index < old(self)@.len() ==> r is Ok && final(self)@ == old(self)@.update(
                index as int,
                item,
            ),
            index >= old(self)@.len() ==> r is Err && r->Err_0@ == bounds_error() && final(self)@
                == old(self)@,
    {
        if (index as usize) < self.items.len() {
            self.items.set(index as usize, item);
            Ok(())
        } else {
            Err(err_eval("Index out of bounds"))
        }
    }

    /// Appends an item, or fails with `BadAllocationRequest` where the list
    /// already has the greatest length it can have.
    pub fn push(&mut self, item: Value) -> (r: Result<(), RuntimeError>)
        requires
            old(self).wf(),
        ensures
            final(self).wf(),
            old(self)@.len() < ArraySize::MAX ==> r is Ok && final(self)@ == old(self)@.push(item),
            old(self)@.len() >= ArraySize::MAX ==> r is Err && r->Err_0@ == full_error() && final(self)@ == old(self)@,
    {
        if self.items.len() < (ArraySize::MAX as usize) {
            self.items.push(item);
            Ok(())
        } else {
            Err(RuntimeError::new(ErrorKind::BadAllocationRequest))
        }
    }

    /// Removes and returns the last item, or fails with a bounds error on an
    /// empty list.
    pub fn pop(&mut self) -> (r: Result<Value, RuntimeError>)
        requires
            old(self).wf(),
        ensures
            final(self).wf(),
            old(self)@.len() > 0 ==> r == Ok::<Value, RuntimeError>(old(self)@.last()) && final(self)@ == old(self)@.drop_last(),
            old(self)@.len() == 0 ==> r is Err && r->Err_0@ == bounds_error() && final(self)@
                == old(self)@,
    {
        match self.items.pop() {
            Some(item) => Ok(item),
            None => Err(err_eval("Index out of bounds")),
        }
    }
}

} // verus!
