use crate::name_resolver::item::DataMember;
use crate::name_resolver::item::Item;
use vstd::prelude::*;

verus! {

/// An item visible in a module through an import.
#[derive(Debug, Clone)]
pub struct ImportedItemInfo {
    pub item: Item,
    pub source_module: String,
}

/// A data member visible in a module through an import.
#[derive(Debug, Clone)]
pub struct ImportedMemberInfo {
    pub member: DataMember,
    pub source_module: String,
}

/// How two items imported under one name are told apart: when the name
/// stands for exactly an algebraic data type and one of its variants, the
/// positions of the type and of the variant and `false`; otherwise the name
/// is ambiguous, `(0, 0, true)`.
pub open spec fn ambiguity(items: Seq<Item>) -> (usize, usize, bool) {
    if items.len() == 2 && items[0] is Adt && items[1] is Variant {
        (0, 1, false)
    } else if items.len() == 2 && items[0] is Variant && items[1] is Adt {
        (1, 0, false)
    } else {
        (0, 0, true)
    }
}

/// The items of a sequence of imports.
pub open spec fn imported_items(items: Seq<ImportedItemInfo>) -> Seq<Item> {
    Seq::new(items.len(), |i: int| items[i].item)
}

impl ImportedItemInfo {
    /// Decides whether the items imported under one name are ambiguous (see [`ambiguity`]).
    pub fn check_ambiguity(items: &[ImportedItemInfo]) -> (r: (usize, usize, bool))
        ensures
            r == ambiguity(imported_items(items@)),
    {
        if items.len() == 2 {
            let mut adt_found = false;
            let mut variant_found = false;
            let mut adt_index: usize = 0;
            let mut variant_index: usize = 0;
            let mut index: usize = 0;
            while index < items.len()
                invariant
                    items@.len() == 2,
                    index <= 2,
                    adt_found == (exists|j: int| 0 <= j < index && items@[j].item is Adt),
                    variant_found == (exists|j: int| 0 <= j < index && items@[j].item is Variant),
                    adt_found ==> adt_index < index && items@[adt_index as int].item is Adt,
                    variant_found ==> variant_index < index && items@[variant_index as int].item is Variant,
                decreases 2 - index,
            {
                if let Item::Adt(..) = items[index].item {
                    adt_found = true;
                    adt_index = index;
                }
                if let Item::Variant(..) = items[index].item {
                    variant_found = true;
                    variant_index = index;
                }
                index += 1;
            }
            let ghost s = imported_items(items@);
            assert(s[0] == items@[0].item && s[1] == items@[1].item);
            if adt_found && variant_found {
                (adt_index, variant_index, false)
            } else {
                (0, 0, true)
            }
        } else {
            (0, 0, true)
        }
    }
}

} // verus!
