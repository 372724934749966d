use crate::location::LocationId;
use crate::syntax::class::ClassId;
use crate::syntax::class::InstanceId;
use crate::syntax::data::AdtId;
use crate::syntax::data::RecordId;
use crate::syntax::function::FunctionId;
use vstd::prelude::*;

verus! {

/// Identifies a module of the syntax tree.
#[derive(Debug, Clone, Copy, PartialEq, Eq, PartialOrd, Ord, Structural)]
pub struct ModuleId {
    pub id: usize,
}

/// A module of the syntax tree, with the declarations it holds.
#[derive(Debug, Clone)]
pub struct Module {
    pub name: String,
    pub id: ModuleId,
    pub functions: Vec<FunctionId>,
    pub records: Vec<RecordId>,
    pub adts: Vec<AdtId>,
    pub classes: Vec<ClassId>,
    pub instances: Vec<InstanceId>,
    pub location_id: LocationId,
}

impl Module {
    /// A module with no declarations yet.
    pub fn new(name: String, id: ModuleId, location_id: LocationId) -> (r: Module)
        ensures
            r.name == name,
            r.id == id,
            r.location_id == location_id,
            r.functions@.len() == 0,
            r.records@.len() == 0,
            r.adts@.len() == 0,
            r.classes@.len() == 0,
            r.instances@.len() == 0,
    {
        Module {
            name: name,
            id: id,
            functions: Vec::new(),
            records: Vec::new(),
            adts: Vec::new(),
            classes: Vec::new(),
            instances: Vec::new(),
            location_id: location_id,
        }
    }
}

} // verus!
