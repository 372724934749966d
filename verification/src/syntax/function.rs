use crate::location::LocationId;
use crate::syntax::class::Constraint;
use crate::syntax::expr::ExprId;
use crate::syntax::types::TypeSignatureId;
use vstd::prelude::*;

verus! {

/// The body of a function: an expression, or implemented outside the language.
#[derive(Debug, Clone, Copy, PartialEq, Eq, Structural)]
pub enum FunctionBody {
    Expr(ExprId),
    Extern,
}

/// The declared type of a function.
#[derive(Debug, Clone)]
pub struct FunctionType {
    pub name: String,
    pub type_args: Vec<(String, LocationId)>,
    pub constraints: Vec<Constraint>,
    pub full_type_signature_id: TypeSignatureId,
    pub type_signature_id: TypeSignatureId,
    pub location_id: LocationId,
}

/// A function declaration.
#[derive(Debug, Clone)]
pub struct Function {
    pub id: FunctionId,
    pub name: String,
    pub args: Vec<(String, LocationId)>,
    pub body: FunctionBody,
    pub func_type: Option<FunctionType>,
    pub location_id: LocationId,
}

/// Identifies a function declaration.
#[derive(Debug, Clone, Copy, PartialEq, Eq, PartialOrd, Ord, Structural)]
pub struct FunctionId {
    pub id: usize,
}

} // verus!
