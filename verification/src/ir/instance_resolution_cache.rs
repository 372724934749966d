use crate::ir::class::ClassId;
use crate::ir::class::InstanceId;
use crate::ir::types::Type;
use crate::ir::types::TypeModel;
use crate::util::assoc_map;
use crate::util::distinct_keys;
use crate::util::lemma_assoc_contains;
use crate::util::lemma_assoc_index;
use crate::util::lemma_assoc_push;
use crate::util::lemma_assoc_update;
use vstd::prelude::*;

verus! {

/// How the instance of a class for a type was found.
#[derive(Debug, Clone, Copy, PartialEq, Eq, Structural)]
pub enum ResolutionResult {
    UserDefined(InstanceId),
    AutoDerived,
}

/// Remembers, for a class and a type, how its instance was resolved.
pub struct InstanceResolutionCache {
    cache: Vec<(ClassId, Type, ResolutionResult)>,
}

/// The key under which the cache files a class and a type.
pub open spec fn cache_key(class_id: ClassId, ty: TypeModel) -> (usize, TypeModel) {
    (class_id.id, ty)
}

impl InstanceResolutionCache {
    pub closed spec fn entries(&self) -> Seq<((usize, TypeModel), ResolutionResult)> {
        Seq::new(
            self.cache@.len(),
            |i: int| (cache_key(self.cache@[i].0, self.cache@[i].1.model()), self.cache@[i].2),
        )
    }

    /// Each class and type is filed at most once.
    pub closed spec fn wf(&self) -> bool {
        distinct_keys(self.entries())
    }

    /// The cache as a map from (class index, type) to the resolution.
    pub closed spec fn view(&self) -> Map<(usize, TypeModel), ResolutionResult> {
        assoc_map(self.entries())
    }

    pub fn new() -> (r: InstanceResolutionCache)
        ensures
            r.wf(),
            r.view() == Map::<(usize, TypeModel), ResolutionResult>::empty(),
    {
        let r = InstanceResolutionCache { cache: Vec::new() };
        assert(r.entries() =~= Seq::empty());
        r
    }

    fn find(&self, class_id: ClassId, ty: &Type) -> (r: Option<usize>)
        requires
            self.wf(),
        ensures
            match r {
                Some(i) => i < self.cache@.len() && self.entries()[i as int].0 == cache_key(
                    class_id,
                    ty.model(),
                ),
                None => !self.view().contains_key(cache_key(class_id, ty.model())),
            },
    {
        let mut i: usize = 0;
        while i < self.cache.len()
            invariant
                i <= self.cache@.len(),
                forall|j: int|
                    0 <= j < i ==> (#[trigger] self.entries()[j]).0 != cache_key(
                        class_id,
                        ty.model(),
                    ),
            decreases self.cache@.len() - i,
        {
            if self.cache[i].0.id == class_id.id && self.cache[i].1.equals(ty) {
                return Some(i);
            }
            i += 1;
        }
        proof {
            lemma_assoc_contains(self.entries(), cache_key(class_id, ty.model()));
            if self.view().contains_key(cache_key(class_id, ty.model())) {
                let j = choose|j: int|
                    0 <= j < self.entries().len() && (#[trigger] self.entries()[j]).0 == cache_key(
                        class_id,
                        ty.model(),
                    );
                assert(self.entries()[j].0 != cache_key(class_id, ty.model()));
            }
        }
        None
    }

    /// Files `result` for the class and the type, replacing an earlier entry.
    pub fn add(&mut self, class_id: ClassId, ty: Type, result: ResolutionResult)
        requires
            old(self).wf(),
        ensures
            final(self).wf(),
            final(self).view() == old(self).view().insert(cache_key(class_id, ty.model()), result),
    {
        let ghost key = cache_key(class_id, ty.model());
        match self.find(class_id, &ty) {
            Some(i) => {
                proof {
                    lemma_assoc_update(self.entries(), i as int, result);
                }
                let ghost before = self.entries();
                self.cache.set(i, (class_id, ty, result));
                assert(self.entries() =~= before.update(i as int, (before[i as int].0, result)));
            },
            None => {
                proof {
                    lemma_assoc_push(self.entries(), key, result);
                }
                let ghost before = self.entries();
                self.cache.push((class_id, ty, result));
                assert(self.entries() =~= before.push((key, result)));
            },
        }
    }

    /// The resolution filed for the class and the type, which must be present.
    pub fn get(&self, class_id: ClassId, ty: Type) -> (r: &ResolutionResult)
        requires
            self.wf(),
            self.view().contains_key(cache_key(class_id, ty.model())),
        ensures
            *r == self.view()[cache_key(class_id, ty.model())],
    {
        match self.find(class_id, &ty) {
            Some(i) => {
                proof {
                    lemma_assoc_index(self.entries(), i as int);
                }
                &self.cache[i].2
            },
            None => {
                proof {
                    assert(false);
                }
                &self.cache[0].2
            },
        }
    }
}

/// What is looked up right after it was filed is what was filed, and filing
/// leaves every other class and type as it was.
pub proof fn lemma_get_after_add(
    before: Map<(usize, TypeModel), ResolutionResult>,
    class_id: ClassId,
    ty: TypeModel,
    result: ResolutionResult,
    other_class: ClassId,
    other_ty: TypeModel,
)
    ensures
        before.insert(cache_key(class_id, ty), result)[cache_key(class_id, ty)] == result,
        cache_key(other_class, other_ty) != cache_key(class_id, ty) ==> (before.insert(
            cache_key(class_id, ty),
            result,
        ).contains_key(cache_key(other_class, other_ty)) == before.contains_key(
            cache_key(other_class, other_ty),
        ) && before.insert(cache_key(class_id, ty), result)[cache_key(other_class, other_ty)]
            == before[cache_key(other_class, other_ty)]),
{
}

} // verus!
