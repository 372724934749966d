use vstd::prelude::*;

verus! {

/// Hands out fresh type variable indices, one after the other.
#[derive(Debug)]
pub struct TypeVarGenerator {
    pub next: usize,
}

impl TypeVarGenerator {
    /// A generator whose first index is `start`.
    pub fn new(start: usize) -> (r: TypeVarGenerator)
        ensures
            r.next == start,
    {
        TypeVarGenerator { next: start }
    }

    /// Returns the next unused index and moves past it.
    pub fn get_new_index(&mut self) -> (r: usize)
        requires
            old(self).next < usize::MAX,
        ensures
            r == old(self).next,
            final(self).next == old(self).next + 1,
    {
        let r = self.next;
        self.next = self.next + 1;
        r
    }
}

} // verus!
