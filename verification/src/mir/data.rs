use crate::mir::types::Type;
use vstd::prelude::*;

verus! {

/// Identifies a type definition of the middle intermediate representation.
#[derive(Debug, Clone, Copy, PartialEq, Eq, PartialOrd, Ord, Structural)]
pub struct TypeDefId {
    pub id: usize,
}

/// A field of a record.
#[derive(Debug)]
pub struct RecordField {
    pub name: String,
    pub ty: Type,
}

/// The built-in data that an external record stands for.
#[derive(Debug, Clone, Copy, PartialEq, Eq, Structural)]
pub enum ExternalDataKind {
    Int,
    String,
    Float,
    Mapping,
    Iterator,
    List,
}

/// Whether a record is defined by its fields or stands for built-in data,
/// with the type arguments of that data.
#[derive(Debug)]
pub enum RecordKind {
    Normal,
    External(ExternalDataKind, Vec<Type>),
}

/// A record type definition.
#[derive(Debug)]
pub struct Record {
    pub id: TypeDefId,
    pub module: String,
    pub name: String,
    pub fields: Vec<RecordField>,
    pub kind: RecordKind,
}

/// A variant of an algebraic data type.
#[derive(Debug)]
pub struct Variant {
    pub name: String,
    pub items: Vec<Type>,
}

/// An algebraic data type definition.
#[derive(Debug)]
pub struct Adt {
    pub id: TypeDefId,
    pub module: String,
    pub name: String,
    pub variants: Vec<Variant>,
}

/// A type definition.
#[derive(Debug)]
pub enum TypeDef {
    Adt(Adt),
    Record(Record),
}

} // verus!
