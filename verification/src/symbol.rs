//! Interned names.
use vstd::prelude::*;

verus! {

/// An interned name. Its identity is its handle in the symbol table.
#[derive(Debug, PartialEq, Eq)]
pub struct Symbol {
    name: String,
}

impl View for Symbol {
    type V = Seq<char>;

    closed spec fn view(&self) -> Seq<char> {
        self.name@
    }
}

impl Symbol {
    /// A symbol with the given name.
    pub fn new(name: &str) -> (symbol: Symbol)
        ensures
            symbol@ == name@,
    {
        Symbol { name: name.to_owned() }
    }

    /// Whether the symbol's name is `name`.
    pub fn is_named(&self, name: &str) -> (same: bool)
        ensures
            same == (self@ == name@),
    {
        let other = name.to_owned();
        self.name == other
    }

    /// The symbol's name.
    pub fn as_str(&self) -> (name: &str)
        ensures
            name@ == self@,
    {
        self.name.as_str()
    }
}

} // verus!
