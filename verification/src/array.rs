//! The integer types by which containers and bytecode are addressed.
use vstd::prelude::*;

verus! {

/// The type of container lengths, container indices and instruction budgets.
pub type ArraySize = u32;

} // verus!
