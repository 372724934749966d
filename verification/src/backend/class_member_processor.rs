use vstd::prelude::*;

verus! {

/// The classes whose instances can be derived automatically.
#[derive(Debug, Clone, Copy, PartialEq, Eq, Structural)]
pub enum DerivedClass {
    Show,
    PartialEq,
    PartialOrd,
    Ord,
}

impl DerivedClass {
    /// The number of arguments of the derived member function.
    pub fn arg_count(&self) -> (r: usize)
        ensures
            r == (if *self == DerivedClass::Show { 1usize } else { 2usize }),
    {
        match self {
            DerivedClass::Show => 1,
            DerivedClass::PartialEq => 2,
            DerivedClass::PartialOrd => 2,
            DerivedClass::Ord => 2,
        }
    }
}

} // verus!
