use crate::mir::data::TypeDefId;
use crate::mir::expr::ExprId;
use crate::mir::types::Type;
use crate::util::decimal;
use crate::util::decimal_string;
use vstd::prelude::*;

verus! {

/// Identifies a function of the middle intermediate representation.
#[derive(Debug, Clone, Copy, PartialEq, Eq, PartialOrd, Ord, Structural)]
pub struct FunctionId {
    pub id: usize,
}

impl FunctionId {
    /// The function as its `Display` writes it: `func#` and its number.
    pub fn to_string(&self) -> (r: String)
        ensures
            r@ == "func#"@ + decimal(self.id as nat),
    {
        let mut s = String::from_str("func#");
        let digits = decimal_string(self.id);
        s.append(digits.as_str());
        s
    }
}

/// What a function is made of.
#[derive(Debug)]
pub enum FunctionInfo {
    Normal(ExprId),
    Extern,
    VariantConstructor(TypeDefId, usize),
}

/// A function of the middle intermediate representation.
#[derive(Debug)]
pub struct Function {
    pub name: String,
    pub function_type: Type,
    pub info: FunctionInfo,
}

} // verus!
