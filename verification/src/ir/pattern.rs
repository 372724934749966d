use crate::ir::data::TypeDefId;
use crate::ir::expr::ExprId;
use crate::ir::type_signature::TypeSignatureId;
use vstd::prelude::*;

verus! {

/// Identifies a pattern of the intermediate representation.
#[derive(Debug, Clone, Copy, PartialEq, Eq, PartialOrd, Ord, Structural)]
pub struct PatternId {
    pub id: usize,
}

/// A pattern of the intermediate representation; its parts are other
/// patterns of the program, by identifier. A float literal holds the bits of
/// its value.
#[derive(Debug, Clone)]
pub enum Pattern {
    Binding(String),
    Guarded(PatternId, ExprId),
    Tuple(Vec<PatternId>),
    Variant(TypeDefId, usize, Vec<PatternId>),
    IntegerLiteral(i64),
    StringLiteral(String),
    FloatLiteral(u64),
    Typed(PatternId, TypeSignatureId),
    Record(TypeDefId, Vec<PatternId>),
    Wildcard,
}

} // verus!
