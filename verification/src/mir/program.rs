use crate::mir::data::TypeDef;
use crate::mir::function::Function;
use crate::util::ItemContainer;
use vstd::prelude::*;

verus! {

/// The functions and type definitions of a program in the middle
/// intermediate representation.
#[derive(Debug)]
pub struct Program {
    pub functions: ItemContainer<Function>,
    pub typedefs: ItemContainer<TypeDef>,
}

impl Program {
    pub fn new() -> (r: Program)
        ensures
            r.functions.id.value == 0,
            r.functions.items@.is_empty(),
            r.typedefs.id.value == 0,
            r.typedefs.items@.is_empty(),
    {
        let r = Program { functions: ItemContainer::new(), typedefs: ItemContainer::new() };
        assert(r.functions.items@ =~= Map::empty());
        r
    }
}

} // verus!
