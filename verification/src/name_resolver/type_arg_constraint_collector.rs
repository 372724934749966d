use crate::ir::class::ClassId;
use crate::util::assoc_map;
use crate::util::distinct_keys;
use crate::util::lemma_assoc_index;
use crate::util::lemma_assoc_insert;
use crate::util::lemma_assoc_contains;
use crate::util::lemma_assoc_update;
use crate::util::lemma_seq_lt_total;
use crate::util::lemma_seq_lt_trans;
use crate::util::seq_lt;
use crate::util::str_eq;
use crate::util::str_less;
use vstd::prelude::*;

verus! {

/// The constraints of each type argument, in the order of the argument names.
#[derive(Debug, Clone)]
pub struct TypeArgConstraintCollection {
    pub items: Vec<(String, Vec<ClassId>)>,
}

impl TypeArgConstraintCollection {
    pub fn new() -> (r: TypeArgConstraintCollection)
        ensures
            r.items@.len() == 0,
    {
        TypeArgConstraintCollection { items: Vec::new() }
    }
}

/// Collects the class constraints of type arguments by name.
#[derive(Debug)]
pub struct TypeArgConstraintCollector {
    constraints: Vec<(String, Vec<ClassId>)>,
}

/// Pairs of names and classes, by the characters of the names.
pub open spec fn constraint_entries(v: Seq<(String, Vec<ClassId>)>) -> Seq<(Seq<char>, Seq<ClassId>)> {
    Seq::new(v.len(), |i: int| (v[i].0@, v[i].1@))
}

/// Whether the names come in strictly increasing order.
pub open spec fn sorted_keys<V>(entries: Seq<(Seq<char>, V)>) -> bool {
    forall|i: int, j: int| 0 <= i < j < entries.len() ==> seq_lt(entries[i].0, entries[j].0)
}

/// Names in strictly increasing order are distinct.
pub proof fn lemma_sorted_distinct<V>(entries: Seq<(Seq<char>, V)>)
    requires
        sorted_keys(entries),
    ensures
        distinct_keys(entries),
{
    assert forall|i: int, j: int|
        0 <= i < entries.len() && 0 <= j < entries.len() && i != j implies entries[i].0
        != entries[j].0 by {
        lemma_seq_lt_total(entries[i].0, entries[j].0);
        if i < j {
            assert(seq_lt(entries[i].0, entries[j].0));
        } else {
            assert(seq_lt(entries[j].0, entries[i].0));
        }
    }
}

/// Where a name goes in a list of strictly increasing names: the position of
/// the first name that does not come before it.
fn find_position(v: &Vec<(String, Vec<ClassId>)>, arg: &String) -> (r: usize)
    requires
        sorted_keys(constraint_entries(v@)),
    ensures
        r <= v@.len(),
        forall|j: int| 0 <= j < r ==> seq_lt((#[trigger] v@[j]).0@, arg@),
        r < v@.len() ==> !seq_lt(v@[r as int].0@, arg@),
{
    let mut i: usize = 0;
    while i < v.len()
        invariant
            i <= v@.len(),
            forall|j: int| 0 <= j < i ==> seq_lt((#[trigger] v@[j]).0@, arg@),
        decreases v@.len() - i,
    {
        if !str_less(v[i].0.as_str(), arg.as_str()) {
            return i;
        }
        i += 1;
    }
    i
}

/// Inserting a new name at its position keeps the names sorted.
pub proof fn lemma_sorted_insert<V>(entries: Seq<(Seq<char>, V)>, pos: int, k: Seq<char>, v: V)
    requires
        sorted_keys(entries),
        0 <= pos <= entries.len(),
        forall|j: int| 0 <= j < pos ==> seq_lt((#[trigger] entries[j]).0, k),
        pos < entries.len() ==> seq_lt(k, entries[pos].0),
    ensures
        sorted_keys(entries.insert(pos, (k, v))),
{
    let ins = entries.insert(pos, (k, v));
    assert forall|i: int, j: int| 0 <= i < j < ins.len() implies seq_lt(ins[i].0, ins[j].0) by {
        if i == pos {
            let jj = j - 1;
            if jj > pos {
                lemma_seq_lt_trans(k, entries[pos].0, entries[jj].0);
            }
        } else if j == pos {
            assert(ins[i] == entries[i]);
        } else {
            let ii = if i < pos { i } else { i - 1 };
            let jj = if j < pos { j } else { j - 1 };
            assert(ins[i] == entries[ii] && ins[j] == entries[jj]);
        }
    }
}

impl TypeArgConstraintCollector {
    /// The classes collected for each type argument name.
    pub closed spec fn view(&self) -> Map<Seq<char>, Seq<ClassId>> {
        assoc_map(constraint_entries(self.constraints@))
    }

    /// The names are kept in strictly increasing order.
    pub closed spec fn wf(&self) -> bool {
        sorted_keys(constraint_entries(self.constraints@))
    }

    pub fn new() -> (r: TypeArgConstraintCollector)
        ensures
            r.wf(),
            r.view() == Map::<Seq<char>, Seq<ClassId>>::empty(),
    {
        let r = TypeArgConstraintCollector { constraints: Vec::new() };
        assert(constraint_entries(r.constraints@) =~= Seq::empty());
        r
    }

    /// Files `arg` with no constraint, dropping any collected before.
    pub fn add_empty(&mut self, arg: String)
        requires
            old(self).wf(),
        ensures
            final(self).wf(),
            final(self).view() == old(self).view().insert(arg@, Seq::empty()),
    {
        self.put(arg, Vec::new(), false);
        assert(Seq::<ClassId>::empty().push(ClassId { id: 0 }).drop_last() =~= Seq::<ClassId>::empty());
    }

    /// Adds `class_id` to the constraints of `arg`.
    pub fn add_constraint(&mut self, arg: String, class_id: ClassId)
        requires
            old(self).wf(),
        ensures
            final(self).wf(),
            final(self).view() == old(self).view().insert(
                arg@,
                (if old(self).view().contains_key(arg@) {
                    old(self).view()[arg@]
                } else {
                    Seq::empty()
                }).push(class_id),
            ),
    {
        let mut classes: Vec<ClassId> = Vec::new();
        classes.push(class_id);
        assert(classes@ =~= seq![class_id]);
        self.put(arg, classes, true);
        proof {
            if old(self).view().contains_key(arg@) {
                assert(old(self).view()[arg@] + seq![class_id] =~= old(self).view()[arg@].push(
                    class_id,
                ));
            } else {
                assert(seq![class_id] =~= Seq::<ClassId>::empty().push(class_id));
            }
        }
    }

    /// With `append`, adds the classes to those of `arg`; without, replaces them.
    fn put(&mut self, arg: String, classes: Vec<ClassId>, append: bool)
        requires
            old(self).wf(),
        ensures
            final(self).wf(),
            final(self).view() == old(self).view().insert(
                arg@,
                if append && old(self).view().contains_key(arg@) {
                    old(self).view()[arg@] + classes@
                } else {
                    classes@
                },
            ),
    {
        let ghost entries = constraint_entries(self.constraints@);
        proof {
            lemma_sorted_distinct(entries);
        }
        let pos = find_position(&self.constraints, &arg);
        if pos < self.constraints.len() && str_eq(self.constraints[pos].0.as_str(), arg.as_str()) {
            proof {
                lemma_assoc_index(entries, pos as int);
            }
            let ghost key = entries[pos as int].0;
            let (name, mut existing) = self.constraints.remove(pos);
            let ghost old_classes = existing@;
            if append {
                let mut k: usize = 0;
                while k < classes.len()
                    invariant
                        k <= classes@.len(),
                        existing@ == old_classes + classes@.subrange(0, k as int),
                    decreases classes@.len() - k,
                {
                    existing.push(classes[k]);
                    k += 1;
                    assert(existing@ =~= old_classes + classes@.subrange(0, k as int));
                }
                assert(classes@.subrange(0, k as int) =~= classes@);
            } else {
                existing = classes;
            }
            let ghost new_classes = existing@;
            self.constraints.insert(pos, (name, existing));
            proof {
                assert(constraint_entries(self.constraints@) =~= entries.update(
                    pos as int,
                    (key, new_classes),
                ));
                lemma_assoc_update(entries, pos as int, new_classes);
                assert forall|i: int, j: int|
                    0 <= i < j < self.constraints@.len() implies seq_lt(
                    constraint_entries(self.constraints@)[i].0,
                    constraint_entries(self.constraints@)[j].0,
                ) by {
                    assert(constraint_entries(self.constraints@)[i].0 == entries[i].0);
                    assert(constraint_entries(self.constraints@)[j].0 == entries[j].0);
                }
            }
        } else {
            proof {
                if pos < entries.len() {
                    lemma_seq_lt_total(entries[pos as int].0, arg@);
                }
                lemma_assoc_contains(entries, arg@);
                if assoc_map(entries).contains_key(arg@) {
                    let j = choose|j: int| 0 <= j < entries.len() && (#[trigger] entries[j]).0 == arg@;
                    if j < pos {
                        lemma_seq_lt_total(arg@, arg@);
                        assert(seq_lt(entries[j].0, arg@));
                    } else if j > pos {
                        lemma_seq_lt_trans(arg@, entries[pos as int].0, entries[j].0);
                        lemma_seq_lt_total(arg@, arg@);
                    }
                }
            }
            let ghost key = arg@;
            let ghost cs = classes@;
            self.constraints.insert(pos, (arg, classes));
            proof {
                assert(constraint_entries(self.constraints@) =~= entries.insert(pos as int, (key, cs)));
                lemma_assoc_insert(entries, pos as int, key, cs);
                assert forall|j: int| 0 <= j < pos implies seq_lt((#[trigger] entries[j]).0, key) by {
                    assert(entries[j].0 == old(self).constraints@[j].0@);
                }
                lemma_sorted_insert(entries, pos as int, key, cs);
            }
        }
    }

    /// Every type argument with its constraints, in increasing order of the names.
    pub fn get_all_constraints(&self) -> (r: TypeArgConstraintCollection)
        requires
            self.wf(),
        ensures
            sorted_keys(constraint_entries(r.items@)),
            assoc_map(constraint_entries(r.items@)) == self.view(),
    {
        let mut result = TypeArgConstraintCollection::new();
        let mut i: usize = 0;
        while i < self.constraints.len()
            invariant
                i <= self.constraints@.len(),
                constraint_entries(result.items@) == constraint_entries(self.constraints@).subrange(
                    0,
                    i as int,
                ),
            decreases self.constraints@.len() - i,
        {
            let name = self.constraints[i].0.clone();
            let classes = self.constraints[i].1.clone();
            assert(classes@ =~= self.constraints@[i as int].1@);
            let ghost before = result.items@;
            result.items.push((name, classes));
            proof {
                assert(result.items@ == before.push((name, classes)));
                assert(constraint_entries(result.items@) =~= constraint_entries(before).push(
                    (name@, classes@),
                ));
            }
            i += 1;
            assert(constraint_entries(result.items@) =~= constraint_entries(self.constraints@).subrange(
                0,
                i as int,
            ));
        }
        assert(constraint_entries(self.constraints@).subrange(0, i as int) =~= constraint_entries(
            self.constraints@,
        ));
        result
    }
}

} // verus!
