use vstd::prelude::*;

verus! {

/// The stage that lowers the intermediate representation to the middle one.
#[derive(Debug)]
pub struct Backend {}

} // verus!
