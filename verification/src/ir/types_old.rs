use crate::ir::class::ClassId;
use crate::ir::class::InstanceId;
use crate::ir::data::TypeDefId;
use crate::util::assoc_map;
use crate::util::distinct_keys;
use crate::util::lemma_assoc_contains;
use crate::util::lemma_assoc_index;
use crate::util::lemma_assoc_push;
use crate::util::lemma_assoc_update;
use std::collections::BTreeMap;
use crate::util::decimal;
use crate::util::decimal_string;
use vstd::prelude::*;

verus! {

broadcast use vstd::std_specs::btree::group_btree_axioms;

/// Identifies a type in the type table.
#[derive(Debug, Clone, Copy, PartialEq, Eq, PartialOrd, Ord, Structural)]
pub struct TypeId {
    pub id: usize,
}

impl TypeId {
    /// The type as its `Display` writes it: its number in `TypeId(..)`.
    pub fn to_string(&self) -> (r: String)
        ensures
            r@ == "TypeId("@ + decimal(self.id as nat) + ")"@,
    {
        let mut s = String::from_str("TypeId(");
        let digits = decimal_string(self.id);
        s.append(digits.as_str());
        s.append(")");
        s
    }
}

/// A type without type variables.
#[derive(Debug)]
pub enum ConcreteType {
    Tuple(Vec<ConcreteType>),
    Named(String, TypeDefId, Vec<ConcreteType>),
    Function(Box<ConcreteType>, Box<ConcreteType>),
}

/// The mathematical model of a [`ConcreteType`].
pub enum ConcreteModel {
    Tuple(Seq<ConcreteModel>),
    Named(Seq<char>, usize, Seq<ConcreteModel>),
    Function(Box<ConcreteModel>, Box<ConcreteModel>),
}

impl ConcreteType {
    pub open spec fn model(&self) -> ConcreteModel
        decreases self,
    {
        match self {
            ConcreteType::Tuple(items) => ConcreteModel::Tuple(Self::models(items@)),
            ConcreteType::Named(name, id, items) => ConcreteModel::Named(
                name@,
                id.id,
                Self::models(items@),
            ),
            ConcreteType::Function(from, to) => ConcreteModel::Function(
                Box::new(from.model()),
                Box::new(to.model()),
            ),
        }
    }

    pub open spec fn models(items: Seq<ConcreteType>) -> Seq<ConcreteModel>
        decreases items,
    {
        Seq::new(
            items.len(),
            |i: int|
                if 0 <= i < items.len() {
                    items[i].model()
                } else {
                    ConcreteModel::Tuple(Seq::empty())
                },
        )
    }
}

impl ConcreteModel {
    /// The number of arrows along the result side of the type.
    pub open spec fn arrow_count(self) -> nat
        decreases self,
    {
        match self {
            ConcreteModel::Function(_, to) => 1 + to.arrow_count(),
            _ => 0,
        }
    }

    /// The type of the function that is left after `arg_count` arguments were applied.
    pub open spec fn func_type(self, arg_count: nat) -> ConcreteModel
        decreases arg_count,
    {
        if arg_count == 0 {
            self
        } else {
            match self {
                ConcreteModel::Function(_, to) => to.func_type((arg_count - 1) as nat),
                _ => self,
            }
        }
    }
}

impl ConcreteType {
    /// A deep copy of the type.
    pub fn clone_type(&self) -> (r: ConcreteType)
        ensures
            r.model() == self.model(),
        decreases self,
    {
        match self {
            ConcreteType::Tuple(items) => ConcreteType::Tuple(Self::clone_types(items)),
            ConcreteType::Named(name, id, items) => ConcreteType::Named(
                name.clone(),
                *id,
                Self::clone_types(items),
            ),
            ConcreteType::Function(from, to) => ConcreteType::Function(
                Box::new(from.clone_type()),
                Box::new(to.clone_type()),
            ),
        }
    }

    /// A deep copy of each type of the vector.
    pub fn clone_types(items: &Vec<ConcreteType>) -> (r: Vec<ConcreteType>)
        ensures
            Self::models(r@) == Self::models(items@),
        decreases items,
    {
        let mut r: Vec<ConcreteType> = Vec::new();
        let mut i: usize = 0;
        while i < items.len()
            invariant
                i <= items.len(),
                r@.len() == i,
                forall|j: int| 0 <= j < i ==> #[trigger] r@[j].model() == items@[j].model(),
            decreases items.len() - i,
        {
            let t = items[i].clone_type();
            r.push(t);
            i += 1;
        }
        assert forall|j: int| 0 <= j < r@.len() implies #[trigger] Self::models(r@)[j]
            == Self::models(items@)[j] by {
            assert(r@[j].model() == items@[j].model());
        }
        assert(Self::models(r@) =~= Self::models(items@));
        r
    }

    /// Whether the two types are the same (structural equality).
    pub fn equals(&self, other: &ConcreteType) -> (r: bool)
        ensures
            r == (self.model() == other.model()),
        decreases self,
    {
        match (self, other) {
            (ConcreteType::Tuple(a), ConcreteType::Tuple(b)) => Self::equals_all(a, b),
            (ConcreteType::Named(n1, id1, a), ConcreteType::Named(n2, id2, b)) => {
                if *n1 != *n2 || id1.id != id2.id {
                    return false;
                }
                Self::equals_all(a, b)
            },
            (ConcreteType::Function(f1, t1), ConcreteType::Function(f2, t2)) => {
                if !f1.equals(f2) {
                    return false;
                }
                t1.equals(t2)
            },
            _ => false,
        }
    }

    fn equals_all(a: &Vec<ConcreteType>, b: &Vec<ConcreteType>) -> (r: bool)
        ensures
            r == (Self::models(a@) == Self::models(b@)),
        decreases a,
    {
        if a.len() != b.len() {
            assert(Self::models(a@).len() != Self::models(b@).len());
            return false;
        }
        let mut i: usize = 0;
        while i < a.len()
            invariant
                i <= a.len(),
                a.len() == b.len(),
                forall|j: int| 0 <= j < i ==> #[trigger] a@[j].model() == b@[j].model(),
            decreases a.len() - i,
        {
            if !a[i].equals(&b[i]) {
                assert(Self::models(a@)[i as int] != Self::models(b@)[i as int]);
                return false;
            }
            i += 1;
        }
        assert forall|j: int| 0 <= j < a@.len() implies #[trigger] Self::models(a@)[j]
            == Self::models(b@)[j] by {
            assert(a@[j].model() == b@[j].model());
        }
        assert(Self::models(a@) =~= Self::models(b@));
        true
    }

    /// The type of the function that is left after `arg_count` arguments were
    /// applied; the type must have at least that many arrows.
    pub fn get_func_type(self, arg_count: usize) -> (r: ConcreteType)
        requires
            arg_count <= self.model().arrow_count(),
        ensures
            r.model() == self.model().func_type(arg_count as nat),
        decreases arg_count,
    {
        if arg_count == 0 {
            self
        } else {
            match self {
                ConcreteType::Function(_, to) => to.get_func_type(arg_count - 1),
                _ => {
                    proof {
                        assert(false);
                    }
                    self
                },
            }
        }
    }

    /// The type arguments of a named type.
    pub fn get_type_args(&self) -> (r: Vec<ConcreteType>)
        requires
            self.model() is Named,
        ensures
            Self::models(r@) == self.model()->Named_2,
    {
        match self {
            ConcreteType::Named(_, _, items) => Self::clone_types(items),
            _ => {
                proof {
                    assert(false);
                }
                Vec::new()
            },
        }
    }
}

/// Finds the instance of a class for each concrete type.
#[derive(Debug)]
pub struct TypeInstanceResolver {
    pub instance_map: Vec<(ClassId, Vec<(ConcreteType, InstanceId)>)>,
}

/// The pairs of an instance list, by the model of their type.
pub open spec fn instance_entries(list: Seq<(ConcreteType, InstanceId)>) -> Seq<(ConcreteModel, usize)> {
    Seq::new(list.len(), |i: int| (list[i].0.model(), list[i].1.id))
}

/// The classes of the instance map with the map of their instances.
pub open spec fn class_entries(map: Seq<(ClassId, Vec<(ConcreteType, InstanceId)>)>) -> Seq<
    (usize, Map<ConcreteModel, usize>),
> {
    Seq::new(map.len(), |i: int| (map[i].0.id, assoc_map(instance_entries(map[i].1@))))
}

impl TypeInstanceResolver {
    /// No class occurs twice, and no type occurs twice for a class.
    pub open spec fn wf(&self) -> bool {
        &&& distinct_keys(class_entries(self.instance_map@))
        &&& forall|i: int|
            0 <= i < self.instance_map@.len() ==> distinct_keys(
                instance_entries(#[trigger] self.instance_map@[i].1@),
            )
    }

    /// For each class index, the map from type to instance index.
    pub open spec fn view(&self) -> Map<usize, Map<ConcreteModel, usize>> {
        assoc_map(class_entries(self.instance_map@))
    }

    pub fn new() -> (r: TypeInstanceResolver)
        ensures
            r.wf(),
            r.view() == Map::<usize, Map<ConcreteModel, usize>>::empty(),
    {
        let r = TypeInstanceResolver { instance_map: Vec::new() };
        assert(class_entries(r.instance_map@) =~= Seq::empty());
        r
    }

    /// Records that `instance_id` is the instance of the class for the type.
    pub fn add(&mut self, class_id: ClassId, ty: ConcreteType, instance_id: InstanceId)
        requires
            old(self).wf(),
        ensures
            final(self).wf(),
            final(self).view() == old(self).view().insert(
                class_id.id,
                (if old(self).view().contains_key(class_id.id) {
                    old(self).view()[class_id.id]
                } else {
                    Map::empty()
                }).insert(ty.model(), instance_id.id),
            ),
    {
        let ghost outer = class_entries(self.instance_map@);
        let mut i: usize = 0;
        let mut found = false;
        while i < self.instance_map.len()
            invariant
                i <= self.instance_map@.len(),
                outer == class_entries(self.instance_map@),
                forall|j: int| 0 <= j < i ==> (#[trigger] outer[j]).0 != class_id.id,
                found ==> i < self.instance_map@.len() && outer[i as int].0 == class_id.id,
            ensures
                i <= self.instance_map@.len(),
                forall|j: int| 0 <= j < i ==> (#[trigger] outer[j]).0 != class_id.id,
                found ==> i < self.instance_map@.len() && outer[i as int].0 == class_id.id,
                !found ==> i == self.instance_map@.len(),
            decreases self.instance_map@.len() - i,
        {
            if self.instance_map[i].0.id == class_id.id {
                found = true;
                break;
            }
            i += 1;
        }
        if found {
            proof {
                lemma_assoc_index(outer, i as int);
            }
            let ghost inner_old = self.instance_map@[i as int].1@;
            let ghost map_before = self.instance_map@;
            let (cid, mut types) = self.instance_map.remove(i);
            assert(types@ == inner_old);
            add_instance(&mut types, ty, instance_id);
            let ghost new_inner = assoc_map(instance_entries(types@));
            self.instance_map.insert(i, (cid, types));
            proof {
                assert forall|j: int| 0 <= j < self.instance_map@.len() && j != i implies
                    #[trigger] self.instance_map@[j] == map_before[j] by {
                    if j < i {
                    } else {
                    }
                }
                lemma_assoc_update(outer, i as int, new_inner);
                assert(class_entries(self.instance_map@) =~= outer.update(
                    i as int,
                    (outer[i as int].0, new_inner),
                ));
                assert forall|j: int| 0 <= j < self.instance_map@.len() implies distinct_keys(
                    instance_entries(#[trigger] self.instance_map@[j].1@),
                ) by {
                    if j != i {
                        assert(self.instance_map@[j] == old(self).instance_map@[j]);
                    }
                }
            }
        } else {
            proof {
                lemma_assoc_contains(outer, class_id.id);
                if self.view().contains_key(class_id.id) {
                    let j = choose|j: int|
                        0 <= j < outer.len() && (#[trigger] outer[j]).0 == class_id.id;
                    assert(outer[j].0 != class_id.id);
                }
            }
            let mut types: Vec<(ConcreteType, InstanceId)> = Vec::new();
            proof {
                assert(instance_entries(types@) =~= Seq::empty());
            }
            add_instance(&mut types, ty, instance_id);
            let ghost new_inner = assoc_map(instance_entries(types@));
            proof {
                lemma_assoc_push(outer, class_id.id, new_inner);
            }
            self.instance_map.push((class_id, types));
            proof {
                assert(class_entries(self.instance_map@) =~= outer.push((class_id.id, new_inner)));
                assert forall|j: int| 0 <= j < self.instance_map@.len() implies distinct_keys(
                    instance_entries(#[trigger] self.instance_map@[j].1@),
                ) by {
                    if j < old(self).instance_map@.len() {
                        assert(self.instance_map@[j] == old(self).instance_map@[j]);
                    }
                }
            }
        }
    }
}

/// Adds (or replaces) the instance of one type in an instance list.
fn add_instance(types: &mut Vec<(ConcreteType, InstanceId)>, ty: ConcreteType, instance_id: InstanceId)
    requires
        distinct_keys(instance_entries(old(types)@)),
    ensures
        distinct_keys(instance_entries(final(types)@)),
        assoc_map(instance_entries(final(types)@)) == assoc_map(instance_entries(old(types)@)).insert(
            ty.model(),
            instance_id.id,
        ),
{
    let ghost entries = instance_entries(types@);
    let mut i: usize = 0;
    let mut found = false;
    while i < types.len()
        invariant
            i <= types@.len(),
            entries == instance_entries(types@),
            forall|j: int| 0 <= j < i ==> (#[trigger] entries[j]).0 != ty.model(),
            found ==> i < types@.len() && entries[i as int].0 == ty.model(),
        ensures
            i <= types@.len(),
            forall|j: int| 0 <= j < i ==> (#[trigger] entries[j]).0 != ty.model(),
            found ==> i < types@.len() && entries[i as int].0 == ty.model(),
            !found ==> i == types@.len(),
        decreases types@.len() - i,
    {
        if types[i].0.equals(&ty) {
            found = true;
            break;
        }
        i += 1;
    }
    if found {
        proof {
            lemma_assoc_update(entries, i as int, instance_id.id);
        }
        types.set(i, (ty, instance_id));
        assert(instance_entries(types@) =~= entries.update(
            i as int,
            (entries[i as int].0, instance_id.id),
        ));
    } else {
        proof {
            lemma_assoc_contains(entries, ty.model());
            if assoc_map(entries).contains_key(ty.model()) {
                let j = choose|j: int| 0 <= j < entries.len() && (#[trigger] entries[j]).0 == ty.model();
                assert(entries[j].0 != ty.model());
            }
            lemma_assoc_push(entries, ty.model(), instance_id.id);
        }
        let ghost m = ty.model();
        types.push((ty, instance_id));
        assert(instance_entries(types@) =~= entries.push((m, instance_id.id)));
    }
}

/// A function type from one type table entry to another.
#[derive(Debug, Clone, Copy, PartialEq, Eq, Structural)]
pub struct FunctionType {
    pub from: TypeId,
    pub to: TypeId,
}

impl FunctionType {
    pub fn new(from: TypeId, to: TypeId) -> (r: FunctionType)
        ensures
            r.from == from,
            r.to == to,
    {
        FunctionType { from: from, to: to }
    }
}

/// A type of the type table; its parts are other entries of the table.
#[derive(Debug)]
pub enum Type {
    Tuple(Vec<TypeId>),
    Function(FunctionType),
    TypeArgument(usize, Vec<ClassId>),
    Named(String, TypeDefId, Vec<TypeId>),
}

/// The concrete types that the type arguments of a generic function stand for.
#[derive(Debug)]
pub struct SubstitutionContext {
    type_args: BTreeMap<usize, ConcreteType>,
}

impl SubstitutionContext {
    /// For each type argument index, the model of the concrete type it stands for.
    pub closed spec fn view(&self) -> Map<usize, ConcreteModel> {
        Map::new(
            |i: usize| self.type_args@.contains_key(i),
            |i: usize| self.type_args@[i].model(),
        )
    }

    pub fn new() -> (r: SubstitutionContext)
        ensures
            r.view() == Map::<usize, ConcreteModel>::empty(),
    {
        let r = SubstitutionContext { type_args: BTreeMap::new() };
        assert(r.view() =~= Map::<usize, ConcreteModel>::empty());
        r
    }

    /// The concrete type that the type argument `index` stands for.
    pub fn get_type_id(&self, index: &usize) -> (r: &ConcreteType)
        requires
            self.view().contains_key(*index),
        ensures
            r.model() == self.view()[*index],
    {
        match self.type_args.get(index) {
            Some(ty) => ty,
            None => {
                proof {
                    assert(false);
                }
                self.type_args.get(index).unwrap()
            },
        }
    }

    /// Records that the type argument `index` stands for `concrete_ty`; an index
    /// that is already bound must be bound to the same type.
    pub fn add_generic(&mut self, index: usize, concrete_ty: ConcreteType)
        requires
            old(self).view().contains_key(index) ==> old(self).view()[index] == concrete_ty.model(),
        ensures
            final(self).view() == old(self).view().insert(index, concrete_ty.model()),
    {
        match self.type_args.get(&index) {
            Some(_) => {
                assert(self.view() =~= old(self).view().insert(index, concrete_ty.model()));
            },
            None => {
                let ghost m = concrete_ty.model();
                self.type_args.insert(index, concrete_ty);
                assert(self.view() =~= old(self).view().insert(index, m));
            },
        }
    }
}

} // verus!
