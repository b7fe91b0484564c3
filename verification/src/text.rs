//! Immutable text values.
use crate::array::ArraySize;
use crate::error::{alloc_error, ErrorKind, RuntimeError};
use crate::heap::MutatorView;
use crate::memory::AllocError;
use vstd::prelude::*;

verus! {

/// An immutable piece of text. Unlike a symbol it is not interned: two texts
/// with the same characters are two objects.
#[derive(Debug, PartialEq, Eq)]
pub struct Text {
    content: String,
}

impl View for Text {
    type V = Seq<char>;

    closed spec fn view(&self) -> Seq<char> {
        self.content@
    }
}

impl Clone for Text {
    fn clone(&self) -> (copy: Text)
        ensures
            copy@ == self@,
    {
        Text { content: self.content.clone() }
    }
}

impl Text {
    /// The empty text.
    pub fn new_empty() -> (text: Text)
        ensures
            text@ == Seq::<char>::empty(),
    {
        Text { content: String::new() }
    }

    /// A text with the characters of `from_str`, or `BadAllocationRequest`
    /// where its length in bytes is beyond what an array size can express.
    /// The heap `mem` is the scope in which the text is made; the text
    /// becomes an object of it only by `alloc_text`.
    pub fn new_from_str(mem: &MutatorView, from_str: &str) -> (r: Result<Text, RuntimeError>)
        ensures
            from_str.len() <= ArraySize::MAX ==> r is Ok && r->Ok_0@ == from_str@,
            from_str.len() > ArraySize::MAX ==> r is Err && r->Err_0@ == alloc_error(
                AllocError::BadRequest,
            ),
    {
        let len = from_str.len();
        if len > (ArraySize::MAX as usize) {
            return Err(RuntimeError::new(ErrorKind::BadAllocationRequest));
        }
        Ok(Text { content: from_str.to_owned() })
    }

    /// The characters of the text, read in the scope of the heap `guard`.
    pub fn as_str(&self, guard: &MutatorView) -> (s: &str)
        ensures
            s@ == self@,
    {
        self.content.as_str()
    }
}

} // verus!
