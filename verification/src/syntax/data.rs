use vstd::prelude::*;

verus! {

/// Identifies an algebraic data type of the syntax tree.
#[derive(Debug, Clone, Copy, PartialEq, Eq, PartialOrd, Ord, Structural)]
pub struct AdtId {
    pub id: usize,
}

/// Identifies a variant of an algebraic data type of the syntax tree.
#[derive(Debug, Clone, Copy, PartialEq, Eq, PartialOrd, Ord, Structural)]
pub struct VariantId {
    pub id: usize,
}

/// Identifies a record of the syntax tree.
#[derive(Debug, Clone, Copy, PartialEq, Eq, PartialOrd, Ord, Structural)]
pub struct RecordId {
    pub id: usize,
}

/// Identifies a field of a record of the syntax tree.
#[derive(Debug, Clone, Copy, PartialEq, Eq, PartialOrd, Ord, Structural)]
pub struct RecordFieldId {
    pub id: usize,
}

} // verus!
