use vstd::prelude::*;

verus! {

/// A trait implemented by the data of a closure in the generated code.
#[derive(Debug, Clone)]
pub enum DynTrait {
    RealCall(String, String, String),
    ArgSave(String, String, String),
}

/// The data of a closure in the generated code: its name, its fields as
/// pairs of name and type, and the traits it implements.
#[derive(Debug, Clone)]
pub struct ClosureDataDef {
    pub name: String,
    pub fields: Vec<(String, String)>,
    pub traits: Vec<DynTrait>,
}

} // verus!
