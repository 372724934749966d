use vstd::prelude::*;

verus! {

/// Identifies a function of the intermediate representation.
#[derive(Debug, Clone, Copy, PartialEq, Eq, PartialOrd, Ord, Structural)]
pub struct FunctionId {
    pub id: usize,
}

} // verus!
