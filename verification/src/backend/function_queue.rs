use crate::ir::class::ClassId;
use crate::ir::class::ClassMemberId;
use crate::ir::function::FunctionId as IrFunctionId;
use crate::ir::types::Type as IrType;
use crate::ir::types::TypeModel;
use crate::mir::function::FunctionId as MirFunctionId;
use crate::mir::program::Program as MirProgram;
use crate::util::assoc_map;
use crate::util::distinct_keys;
use crate::util::lemma_assoc_contains;
use crate::util::lemma_assoc_index;
use crate::util::lemma_assoc_push;
use vstd::prelude::*;

verus! {

/// A function that the backend still has to produce: a function of the
/// intermediate representation at given argument and result types, or an
/// automatically derived class member for a type.
#[derive(Debug)]
pub enum FunctionQueueItem {
    Normal(IrFunctionId, Vec<IrType>, IrType),
    AutoDerive(IrType, ClassId, ClassMemberId),
}

/// The mathematical model of a [`FunctionQueueItem`].
pub enum QueueItemModel {
    Normal(usize, Seq<TypeModel>, TypeModel),
    AutoDerive(TypeModel, usize, usize),
}

impl FunctionQueueItem {
    pub open spec fn model(&self) -> QueueItemModel {
        match self {
            FunctionQueueItem::Normal(id, args, result) => QueueItemModel::Normal(
                id.id,
                IrType::models(args@),
                result.model(),
            ),
            FunctionQueueItem::AutoDerive(ty, class_id, member_id) => QueueItemModel::AutoDerive(
                ty.model(),
                class_id.id,
                member_id.id,
            ),
        }
    }

    /// A deep copy of the item.
    pub fn clone_item(&self) -> (r: FunctionQueueItem)
        ensures
            r.model() == self.model(),
    {
        match self {
            FunctionQueueItem::Normal(id, args, result) => FunctionQueueItem::Normal(
                *id,
                IrType::clone_types(args),
                result.clone_type(),
            ),
            FunctionQueueItem::AutoDerive(ty, class_id, member_id) => FunctionQueueItem::AutoDerive(
                ty.clone_type(),
                *class_id,
                *member_id,
            ),
        }
    }

    /// Whether the two items are the same.
    pub fn equals(&self, other: &FunctionQueueItem) -> (r: bool)
        ensures
            r == (self.model() == other.model()),
    {
        match (self, other) {
            (FunctionQueueItem::Normal(i1, a1, r1), FunctionQueueItem::Normal(i2, a2, r2)) => {
                i1.id == i2.id && IrType::equals_all_types(a1, a2) && r1.equals(r2)
            },
            (
                FunctionQueueItem::AutoDerive(t1, c1, m1),
                FunctionQueueItem::AutoDerive(t2, c2, m2),
            ) => c1.id == c2.id && m1.id == m2.id && t1.equals(t2),
            _ => false,
        }
    }
}

/// The work list of the backend: each item is given a function identifier
/// of the middle representation once, and waits until it is processed.
#[derive(Debug)]
pub struct FunctionQueue {
    pending: Vec<(FunctionQueueItem, MirFunctionId)>,
    processed: Vec<(FunctionQueueItem, MirFunctionId)>,
}

/// Pairs of items and identifiers, by the model of the item.
pub open spec fn queue_entries(v: Seq<(FunctionQueueItem, MirFunctionId)>) -> Seq<
    (QueueItemModel, usize),
> {
    Seq::new(v.len(), |i: int| (v[i].0.model(), v[i].1.id))
}

impl FunctionQueue {
    /// Every item ever inserted, with the identifier it was given.
    pub closed spec fn processed_map(&self) -> Map<QueueItemModel, usize> {
        assoc_map(queue_entries(self.processed@))
    }

    /// The items still to be processed, most recent last.
    pub closed spec fn pending_items(&self) -> Seq<(QueueItemModel, usize)> {
        queue_entries(self.pending@)
    }

    /// No item is filed twice, and no two items share an identifier.
    pub closed spec fn wf(&self) -> bool {
        let e = queue_entries(self.processed@);
        &&& distinct_keys(e)
        &&& forall|i: int, j: int| 0 <= i < e.len() && 0 <= j < e.len() && i != j ==> e[i].1 != e[j].1
    }

    /// Every identifier handed out is below `bound`.
    pub open spec fn ids_below(&self, bound: nat) -> bool {
        forall|k: QueueItemModel| #[trigger]
            self.processed_map().contains_key(k) ==> self.processed_map()[k] < bound
    }

    pub fn new() -> (r: FunctionQueue)
        ensures
            r.wf(),
            r.processed_map() == Map::<QueueItemModel, usize>::empty(),
            r.pending_items() == Seq::<(QueueItemModel, usize)>::empty(),
    {
        let r = FunctionQueue { pending: Vec::new(), processed: Vec::new() };
        assert(queue_entries(r.processed@) =~= Seq::empty());
        assert(queue_entries(r.pending@) =~= Seq::empty());
        r
    }

    /// The identifier of the item's function. An item seen before keeps the
    /// identifier it was given; a new item gets a fresh identifier from the
    /// program's function table and joins the pending items.
    pub fn insert(&mut self, item: FunctionQueueItem, mir_program: &mut MirProgram) -> (r:
        MirFunctionId)
        requires
            old(self).wf(),
            old(self).ids_below(old(mir_program).functions.id.value as nat),
            !old(self).processed_map().contains_key(item.model()) ==> old(mir_program).functions.id.value
                < usize::MAX,
        ensures
            final(self).wf(),
            final(self).ids_below(final(mir_program).functions.id.value as nat),
            old(self).processed_map().contains_key(item.model()) ==> {
                &&& r.id == old(self).processed_map()[item.model()]
                &&& final(self).processed_map() == old(self).processed_map()
                &&& final(self).pending_items() == old(self).pending_items()
                &&& final(mir_program).functions.id == old(mir_program).functions.id
            },
            !old(self).processed_map().contains_key(item.model()) ==> {
                &&& r.id == old(mir_program).functions.id.value
                &&& final(self).processed_map() == old(self).processed_map().insert(
                    item.model(),
                    r.id,
                )
                &&& final(self).pending_items() == old(self).pending_items().push(
                    (item.model(), r.id),
                )
                &&& final(mir_program).functions.id.value == old(mir_program).functions.id.value
                    + 1
            },
            final(mir_program).functions.items@ == old(mir_program).functions.items@,
            final(mir_program).typedefs == old(mir_program).typedefs,
    {
        let ghost entries = queue_entries(self.processed@);
        let mut i: usize = 0;
        let mut found = false;
        while i < self.processed.len()
            invariant
                i <= self.processed@.len(),
                entries == queue_entries(self.processed@),
                forall|j: int| 0 <= j < i ==> (#[trigger] entries[j]).0 != item.model(),
                found ==> i < self.processed@.len() && entries[i as int].0 == item.model(),
            ensures
                i <= self.processed@.len(),
                forall|j: int| 0 <= j < i ==> (#[trigger] entries[j]).0 != item.model(),
                found ==> i < self.processed@.len() && entries[i as int].0 == item.model(),
                !found ==> i == self.processed@.len(),
            decreases self.processed@.len() - i,
        {
            if self.processed[i].0.equals(&item) {
                found = true;
                break;
            }
            i += 1;
        }
        if found {
            proof {
                lemma_assoc_index(entries, i as int);
            }
            self.processed[i].1
        } else {
            proof {
                lemma_assoc_contains(entries, item.model());
                if assoc_map(entries).contains_key(item.model()) {
                    let j = choose|j: int|
                        0 <= j < entries.len() && (#[trigger] entries[j]).0 == item.model();
                    assert(entries[j].0 != item.model());
                }
            }
            let ghost bound = mir_program.functions.id.value;
            let id = MirFunctionId { id: mir_program.functions.get_id() };
            let ghost m = item.model();
            let copy = item.clone_item();
            proof {
                lemma_assoc_push(entries, m, id.id);
            }
            let ghost pending_before = queue_entries(self.pending@);
            self.processed.push((copy, id));
            self.pending.push((item, id));
            proof {
                assert(queue_entries(self.processed@) =~= entries.push((m, id.id)));
                assert(queue_entries(self.pending@) =~= pending_before.push((m, id.id)));
                let e = queue_entries(self.processed@);
                assert(old(self).processed_map() == assoc_map(entries));
                assert forall|a: int, b: int|
                    0 <= a < e.len() && 0 <= b < e.len() && a != b implies e[a].1 != e[b].1 by {
                    if a == entries.len() {
                        lemma_assoc_index(entries, b);
                        assert(entries[b] == e[b]);
                        assert(old(self).processed_map().contains_key(entries[b].0));
                    } else if b == entries.len() {
                        lemma_assoc_index(entries, a);
                        assert(entries[a] == e[a]);
                        assert(old(self).processed_map().contains_key(entries[a].0));
                    } else {
                        assert(entries[a] == e[a] && entries[b] == e[b]);
                    }
                }
                assert forall|k: QueueItemModel| #[trigger]
                    self.processed_map().contains_key(k) implies self.processed_map()[k]
                    < mir_program.functions.id.value by {
                    if k != m {
                        assert(old(self).processed_map().contains_key(k));
                    }
                }
            }
            id
        }
    }
}

/// Two different items of a well-formed queue never share a function identifier.
pub proof fn lemma_distinct_items_distinct_ids(queue: FunctionQueue, a: QueueItemModel, b: QueueItemModel)
    requires
        queue.wf(),
        queue.processed_map().contains_key(a),
        queue.processed_map().contains_key(b),
        a != b,
    ensures
        queue.processed_map()[a] != queue.processed_map()[b],
{
    let e = queue_entries(queue.processed@);
    lemma_assoc_contains(e, a);
    lemma_assoc_contains(e, b);
    let i = choose|i: int| 0 <= i < e.len() && (#[trigger] e[i]).0 == a;
    let j = choose|j: int| 0 <= j < e.len() && (#[trigger] e[j]).0 == b;
    lemma_assoc_index(e, i);
    lemma_assoc_index(e, j);
}

} // verus!
