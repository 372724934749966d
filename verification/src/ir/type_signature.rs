use crate::ir::class::ClassId;
use crate::ir::data::TypeDefId;
use vstd::prelude::*;

verus! {

/// Identifies a type signature of the intermediate representation.
#[derive(Debug, Clone, Copy, PartialEq, Eq, PartialOrd, Ord, Structural)]
pub struct TypeSignatureId {
    pub id: usize,
}

/// A type as written in the source, with its names resolved.
#[derive(Debug)]
pub enum TypeSignature {
    Nothing,
    /// A type argument: its position, its name and its class constraints.
    TypeArgument(usize, String, Vec<ClassId>),
    Variant(String, Vec<TypeSignatureId>),
    /// A type definition: its name, the definition and the type arguments.
    Named(String, TypeDefId, Vec<TypeSignatureId>),
    Int,
    Bool,
    String,
    Tuple(Vec<TypeSignatureId>),
    Function(TypeSignatureId, TypeSignatureId),
    Wildcard,
}

/// A type signature as plain values.
pub enum SigModel {
    Nothing,
    TypeArgument(usize, Seq<char>, Seq<ClassId>),
    Variant(Seq<char>, Seq<TypeSignatureId>),
    Named(Seq<char>, TypeDefId, Seq<TypeSignatureId>),
    Int,
    Bool,
    String,
    Tuple(Seq<TypeSignatureId>),
    Function(TypeSignatureId, TypeSignatureId),
    Wildcard,
}

impl TypeSignature {
    /// The signature as plain values.
    pub open spec fn model(&self) -> SigModel {
        match self {
            TypeSignature::Nothing => SigModel::Nothing,
            TypeSignature::TypeArgument(i, n, cs) => SigModel::TypeArgument(*i, n@, cs@),
            TypeSignature::Variant(n, items) => SigModel::Variant(n@, items@),
            TypeSignature::Named(n, t, items) => SigModel::Named(n@, *t, items@),
            TypeSignature::Int => SigModel::Int,
            TypeSignature::Bool => SigModel::Bool,
            TypeSignature::String => SigModel::String,
            TypeSignature::Tuple(items) => SigModel::Tuple(items@),
            TypeSignature::Function(a, b) => SigModel::Function(*a, *b),
            TypeSignature::Wildcard => SigModel::Wildcard,
        }
    }
}

} // verus!
