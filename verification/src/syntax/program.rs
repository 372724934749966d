use crate::location::ItemInfo;
use crate::location::LocationId;
use crate::syntax::types::TypeSignature;
use crate::syntax::types::TypeSignatureId;
use crate::util::ItemContainer;
use vstd::prelude::*;

verus! {

/// The type signatures of a parsed program.
#[derive(Debug)]
pub struct Program {
    pub type_signatures: ItemContainer<ItemInfo<TypeSignature>>,
}

impl Program {
    pub fn new() -> (r: Program)
        ensures
            r.type_signatures.id.value == 0,
            r.type_signatures.items@.is_empty(),
    {
        Program { type_signatures: ItemContainer::new() }
    }

    /// Files `type_signature` under a fresh identifier, which it returns.
    pub fn add_type_signature(&mut self, type_signature: TypeSignature, location_id: LocationId) -> (r: TypeSignatureId)
        requires
            old(self).type_signatures.id.value < usize::MAX,
        ensures
            r.id == old(self).type_signatures.id.value,
            final(self).type_signatures.id.value == old(self).type_signatures.id.value + 1,
            final(self).type_signatures.items@ == old(self).type_signatures.items@.insert(
                r.id,
                ItemInfo { item: type_signature, location_id },
            ),
    {
        let id = self.type_signatures.get_id();
        self.type_signatures.add_item(id, ItemInfo::new(type_signature, location_id));
        TypeSignatureId { id: id }
    }
}

} // verus!
