use crate::util::decimal;
use crate::util::decimal_string;
use vstd::prelude::*;

verus! {

/// Identifies an expression of the middle intermediate representation.
#[derive(Debug, Clone, Copy, PartialEq, Eq, PartialOrd, Ord, Structural)]
pub struct ExprId {
    pub id: usize,
}

impl ExprId {
    /// The expression as its `Display` writes it: `#` and its number.
    pub fn to_string(&self) -> (r: String)
        ensures
            r@ == "#"@ + decimal(self.id as nat),
    {
        let mut s = String::from_str("#");
        let digits = decimal_string(self.id);
        s.append(digits.as_str());
        s
    }
}

} // verus!
