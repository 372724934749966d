use crate::location::LocationId;
use crate::util::decimal;
use crate::util::decimal_string;
use vstd::prelude::*;

verus! {

/// A type class of the program.
#[derive(Debug, Clone)]
pub struct Class {
    pub id: ClassId,
    pub name: String,
    pub location_id: LocationId,
}

/// Identifies a type class.
#[derive(Debug, Clone, Copy, PartialEq, Eq, PartialOrd, Ord, Structural)]
pub struct ClassId {
    pub id: usize,
}

impl ClassId {
    /// The class as its `Display` writes it: `#` and its number.
    pub fn to_string(&self) -> (r: String)
        ensures
            r@ == "#"@ + decimal(self.id as nat),
    {
        let mut s = String::from_str("#");
        let digits = decimal_string(self.id);
        s.append(digits.as_str());
        s
    }
}

/// Identifies a member function of a type class.
#[derive(Debug, Clone, Copy, PartialEq, Eq, PartialOrd, Ord, Structural)]
pub struct ClassMemberId {
    pub id: usize,
}

impl ClassMemberId {
    /// The class member as its `Display` writes it: `#` and its number.
    pub fn to_string(&self) -> (r: String)
        ensures
            r@ == "#"@ + decimal(self.id as nat),
    {
        let mut s = String::from_str("#");
        let digits = decimal_string(self.id);
        s.append(digits.as_str());
        s
    }
}

/// Identifies an instance of a type class.
#[derive(Debug, Clone, Copy, PartialEq, Eq, PartialOrd, Ord, Structural)]
pub struct InstanceId {
    pub id: usize,
}

} // verus!
