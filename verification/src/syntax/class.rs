use crate::location::LocationId;
use crate::syntax::function::FunctionId;
use crate::syntax::function::FunctionType;
use crate::syntax::types::TypeSignatureId;
use vstd::prelude::*;

verus! {

/// A type class declaration.
#[derive(Debug, Clone)]
pub struct Class {
    pub id: ClassId,
    pub name: String,
    pub arg: String,
    pub constraints: Vec<Constraint>,
    pub members: Vec<ClassMemberId>,
    pub location_id: LocationId,
}

/// An instance declaration.
#[derive(Debug, Clone)]
pub struct Instance {
    pub id: InstanceId,
    pub class_name: String,
    pub type_signature_id: TypeSignatureId,
    pub constraints: Vec<Constraint>,
    pub members: Vec<InstanceMember>,
    pub location_id: LocationId,
}

/// A member function of a class declaration.
#[derive(Debug, Clone)]
pub struct ClassMember {
    pub id: ClassMemberId,
    pub type_signature: FunctionType,
    pub function: Option<FunctionId>,
    pub location_id: LocationId,
}

/// A member function of an instance declaration.
#[derive(Debug, Clone)]
pub struct InstanceMember {
    pub function: FunctionId,
}

/// A class constraint on a type argument.
#[derive(Debug, Clone)]
pub struct Constraint {
    pub class_name: String,
    pub arg: String,
    pub location_id: LocationId,
}

/// Identifies a class declaration.
#[derive(Debug, Clone, Copy, PartialEq, Eq, PartialOrd, Ord, Structural)]
pub struct ClassId {
    pub id: usize,
}

/// Identifies a member of a class declaration.
#[derive(Debug, Clone, Copy, PartialEq, Eq, PartialOrd, Ord, Structural)]
pub struct ClassMemberId {
    pub id: usize,
}

/// Identifies an instance declaration.
#[derive(Debug, Clone, Copy, PartialEq, Eq, PartialOrd, Ord, Structural)]
pub struct InstanceId {
    pub id: usize,
}

} // verus!
