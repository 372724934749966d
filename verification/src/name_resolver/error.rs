use crate::location::LocationId;
use vstd::prelude::*;

verus! {

/// An error found while resolving names.
#[derive(Debug)]
pub enum ResolverError {
    /// Several modules have one name; for each such name, the locations of the modules.
    ModuleConflict(Vec<(String, Vec<LocationId>)>),
    /// The name does not stand for a class.
    NotAClassName(String, LocationId),
    /// The name stands for more than one item.
    AmbiguousName(String, LocationId),
    /// No type of this name is visible.
    UnknownTypeName(String, LocationId),
    /// No type argument of this name is declared.
    UnknownTypeArg(String, LocationId),
    /// The name stands for something other than a type.
    NameNotType(String, LocationId),
    /// The type takes the first number of arguments, and the second was given.
    IncorrectTypeArgumentCount(String, usize, usize, LocationId),
}

/// The errors that stop the compiler.
#[derive(Debug)]
pub enum Error {
    ResolveErr(Vec<ResolverError>),
}

impl Error {
    pub fn resolve_err(errors: Vec<ResolverError>) -> (r: Error)
        ensures
            r == Error::ResolveErr(errors),
    {
        Error::ResolveErr(errors)
    }
}

} // verus!
