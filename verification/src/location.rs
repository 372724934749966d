use vstd::prelude::*;

verus! {

/// Identifies a location of the source text.
#[derive(Debug, Clone, Copy, PartialEq, Eq, PartialOrd, Ord, Structural)]
pub struct LocationId {
    pub id: usize,
}

/// An item together with the location it came from.
#[derive(Debug, Clone)]
pub struct ItemInfo<T> {
    pub item: T,
    pub location_id: LocationId,
}

impl<T> ItemInfo<T> {
    pub fn new(item: T, location_id: LocationId) -> (r: ItemInfo<T>)
        ensures
            r.item == item,
            r.location_id == location_id,
    {
        ItemInfo { item: item, location_id: location_id }
    }
}

} // verus!
