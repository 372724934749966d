use vstd::prelude::*;

verus! {

/// Identifies a type signature of the syntax tree.
#[derive(Debug, Clone, Copy, PartialEq, Eq, PartialOrd, Ord, Structural)]
pub struct TypeSignatureId {
    pub id: usize,
}

/// A type as written in the source.
#[derive(Debug, Clone)]
pub enum TypeSignature {
    Nothing,
    TypeArg(String),
    Named(String, Vec<TypeSignatureId>),
    Variant(String, Vec<TypeSignatureId>),
    Tuple(Vec<TypeSignatureId>),
    Function(TypeSignatureId, TypeSignatureId),
    Wildcard,
}

} // verus!
