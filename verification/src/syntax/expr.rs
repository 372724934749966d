use vstd::prelude::*;

verus! {

/// Identifies an expression of the syntax tree.
#[derive(Debug, Clone, Copy, PartialEq, Eq, PartialOrd, Ord, Structural)]
pub struct ExprId {
    pub id: usize,
}

} // verus!
