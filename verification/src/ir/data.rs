use vstd::prelude::*;

verus! {

/// Identifies a type definition (record or algebraic data type) of the program.
#[derive(Debug, Clone, Copy, PartialEq, Eq, PartialOrd, Ord, Structural)]
pub struct TypeDefId {
    pub id: usize,
}

/// An algebraic data type as the type checker sees it: its name and its type
/// arguments.
#[derive(Debug)]
pub struct Adt {
    pub name: String,
    pub type_args: Vec<usize>,
}

/// A record as the type checker sees it: its name and its type arguments.
#[derive(Debug)]
pub struct Record {
    pub name: String,
    pub type_args: Vec<usize>,
}

/// A type definition of the program.
#[derive(Debug)]
pub enum TypeDef {
    Adt(Adt),
    Record(Record),
}

impl TypeDef {
    /// The name of the type.
    pub open spec fn name(&self) -> String {
        match self {
            TypeDef::Adt(a) => a.name,
            TypeDef::Record(r) => r.name,
        }
    }

    /// The number of its type arguments.
    pub open spec fn arg_count(&self) -> nat {
        match self {
            TypeDef::Adt(a) => a.type_args@.len(),
            TypeDef::Record(r) => r.type_args@.len(),
        }
    }
}

} // verus!
