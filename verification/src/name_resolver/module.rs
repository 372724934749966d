use crate::location::LocationId;
use crate::name_resolver::import::ImportedItemInfo;
use crate::name_resolver::import::ImportedMemberInfo;
use crate::name_resolver::item::DataMember;
use crate::name_resolver::item::Item;
use crate::syntax::module::ModuleId;
use crate::util::assoc_map;
use vstd::prelude::*;

verus! {

/// A module as the name resolver sees it: what it exports, what it imports
/// and what it declares, each keyed by name (as a list of pairs).
#[derive(Debug)]
pub struct Module {
    pub id: ModuleId,
    pub name: String,
    pub exported_items: Vec<(String, Item)>,
    pub exported_members: Vec<(String, Vec<DataMember>)>,
    pub imported_items: Vec<(String, Vec<ImportedItemInfo>)>,
    pub imported_members: Vec<(String, Vec<ImportedMemberInfo>)>,
    pub items: Vec<(String, Vec<Item>)>,
    pub members: Vec<(String, Vec<DataMember>)>,
    pub location_id: LocationId,
}

/// The pairs of the import list, by the characters of their names.
pub open spec fn import_entries(v: Seq<(String, Vec<ImportedItemInfo>)>) -> Seq<(Seq<char>, Seq<ImportedItemInfo>)> {
    Seq::new(v.len(), |i: int| (v[i].0@, v[i].1@))
}

impl Module {
    /// The items imported under each name.
    pub open spec fn imported(&self) -> Map<Seq<char>, Seq<ImportedItemInfo>> {
        assoc_map(import_entries(self.imported_items@))
    }

    /// Whether the module holds nothing yet.
    pub open spec fn is_empty(&self) -> bool {
        &&& self.exported_items@.len() == 0
        &&& self.exported_members@.len() == 0
        &&& self.imported_items@.len() == 0
        &&& self.imported_members@.len() == 0
        &&& self.items@.len() == 0
        &&& self.members@.len() == 0
    }

    pub fn new(id: ModuleId, name: String, location_id: LocationId) -> (r: Module)
        ensures
            r.id == id,
            r.name == name,
            r.location_id == location_id,
            r.is_empty(),
    {
        Module {
            id: id,
            name: name,
            exported_items: Vec::new(),
            exported_members: Vec::new(),
            imported_items: Vec::new(),
            imported_members: Vec::new(),
            items: Vec::new(),
            members: Vec::new(),
            location_id: location_id,
        }
    }
}

} // verus!
