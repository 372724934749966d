use crate::ir::class::ClassId;
use crate::ir::data::TypeDefId;
use crate::ir::type_var_generator::TypeVarGenerator;
use std::collections::BTreeMap;
use vstd::prelude::*;

verus! {

broadcast use vstd::std_specs::btree::group_btree_axioms;

/// The shape of a type, without its arguments.
#[derive(Debug, Clone, Copy, PartialEq, Eq, Structural)]
pub enum BaseType {
    Tuple,
    Named(TypeDefId),
    Function,
    Generic,
}

/// A type of the intermediate representation.
#[derive(Debug)]
pub enum Type {
    Tuple(Vec<Type>),
    Named(String, TypeDefId, Vec<Type>),
    Function(Box<Type>, Box<Type>),
    Var(usize, Vec<ClassId>),
    FixedTypeArg(String, usize, Vec<ClassId>),
}

/// The mathematical model of a [`Type`]: names as character sequences,
/// identifiers as their numbers.
pub enum TypeModel {
    Tuple(Seq<TypeModel>),
    Named(Seq<char>, usize, Seq<TypeModel>),
    Function(Box<TypeModel>, Box<TypeModel>),
    Var(usize, Seq<usize>),
    FixedTypeArg(Seq<char>, usize, Seq<usize>),
}

pub open spec fn class_ids_model(cs: Seq<ClassId>) -> Seq<usize> {
    Seq::new(cs.len(), |i: int| cs[i].id)
}

impl Type {
    pub open spec fn model(&self) -> TypeModel
        decreases self,
    {
        match self {
            Type::Tuple(items) => TypeModel::Tuple(Self::models(items@)),
            Type::Named(name, id, items) => TypeModel::Named(name@, id.id, Self::models(items@)),
            Type::Function(from, to) => TypeModel::Function(
                Box::new(from.model()),
                Box::new(to.model()),
            ),
            Type::Var(i, cs) => TypeModel::Var(*i, class_ids_model(cs@)),
            Type::FixedTypeArg(name, i, cs) => TypeModel::FixedTypeArg(
                name@,
                *i,
                class_ids_model(cs@),
            ),
        }
    }

    pub open spec fn models(items: Seq<Type>) -> Seq<TypeModel>
        decreases items,
    {
        Seq::new(
            items.len(),
            |i: int|
                if 0 <= i < items.len() {
                    items[i].model()
                } else {
                    TypeModel::Tuple(Seq::empty())
                },
        )
    }
}

impl TypeModel {
    /// Whether the type variable `index` occurs in the type.
    pub open spec fn contains(self, index: usize) -> bool
        decreases self,
    {
        match self {
            TypeModel::Tuple(items) => TypeModel::contains_flags(items, index).contains(true),
            TypeModel::Named(_, _, items) => TypeModel::contains_flags(items, index).contains(true),
            TypeModel::Function(from, to) => from.contains(index) || to.contains(index),
            TypeModel::Var(i, _) => i == index,
            TypeModel::FixedTypeArg(_, i, _) => i == index,
        }
    }

    /// For each of the types, whether the type variable `index` occurs in it.
    pub open spec fn contains_flags(items: Seq<TypeModel>, index: usize) -> Seq<bool>
        decreases items,
    {
        Seq::new(items.len(), |k: int| 0 <= k < items.len() && items[k].contains(index))
    }

    /// The type with every fixed type argument turned into a type variable
    /// with the same index and constraints.
    pub open spec fn remove_fixed(self) -> TypeModel
        decreases self,
    {
        match self {
            TypeModel::Tuple(items) => TypeModel::Tuple(TypeModel::remove_fixed_seq(items)),
            TypeModel::Named(name, id, items) => TypeModel::Named(
                name,
                id,
                TypeModel::remove_fixed_seq(items),
            ),
            TypeModel::Function(from, to) => TypeModel::Function(
                Box::new(from.remove_fixed()),
                Box::new(to.remove_fixed()),
            ),
            TypeModel::Var(i, cs) => TypeModel::Var(i, cs),
            TypeModel::FixedTypeArg(_, i, cs) => TypeModel::Var(i, cs),
        }
    }

    /// Each of the types with its fixed type arguments turned into type variables.
    pub open spec fn remove_fixed_seq(items: Seq<TypeModel>) -> Seq<TypeModel>
        decreases items,
    {
        Seq::new(
            items.len(),
            |i: int|
                if 0 <= i < items.len() {
                    items[i].remove_fixed()
                } else {
                    TypeModel::Tuple(Seq::empty())
                },
        )
    }

    /// Whether no fixed type argument occurs in the type.
    pub open spec fn no_fixed(self) -> bool
        decreases self,
    {
        match self {
            TypeModel::Tuple(items) => !TypeModel::fixed_flags(items).contains(true),
            TypeModel::Named(_, _, items) => !TypeModel::fixed_flags(items).contains(true),
            TypeModel::Function(from, to) => from.no_fixed() && to.no_fixed(),
            TypeModel::Var(..) => true,
            TypeModel::FixedTypeArg(..) => false,
        }
    }

    /// For each of the types, whether a fixed type argument occurs in it.
    pub open spec fn fixed_flags(items: Seq<TypeModel>) -> Seq<bool>
        decreases items,
    {
        Seq::new(items.len(), |k: int| 0 <= k < items.len() && !items[k].no_fixed())
    }

    /// The copy of the type in which every type variable (and fixed type argument)
    /// index is replaced through `arg_map`; an index met for the first time is
    /// mapped to the next fresh index `next`. The types are visited left to right.
    /// Returns the copy, the extended map and the next fresh index.
    pub open spec fn dup(self, arg_map: Map<usize, usize>, next: nat) -> (TypeModel, Map<usize, usize>, nat)
        decreases self,
    {
        match self {
            TypeModel::Tuple(items) => {
                let (rs, m, n) = TypeModel::dup_seq(items, arg_map, next);
                (TypeModel::Tuple(rs), m, n)
            },
            TypeModel::Named(name, id, items) => {
                let (rs, m, n) = TypeModel::dup_seq(items, arg_map, next);
                (TypeModel::Named(name, id, rs), m, n)
            },
            TypeModel::Function(from, to) => {
                let (f, m1, n1) = from.dup(arg_map, next);
                let (t, m2, n2) = to.dup(m1, n1);
                (TypeModel::Function(Box::new(f), Box::new(t)), m2, n2)
            },
            TypeModel::Var(i, cs) => if arg_map.contains_key(i) {
                (TypeModel::Var(arg_map[i], cs), arg_map, next)
            } else {
                (TypeModel::Var(next as usize, cs), arg_map.insert(i, next as usize), next + 1)
            },
            TypeModel::FixedTypeArg(name, i, cs) => if arg_map.contains_key(i) {
                (TypeModel::FixedTypeArg(name, arg_map[i], cs), arg_map, next)
            } else {
                (
                    TypeModel::FixedTypeArg(name, next as usize, cs),
                    arg_map.insert(i, next as usize),
                    next + 1,
                )
            },
        }
    }

    /// [`TypeModel::dup`] over a sequence of types, left to right.
    pub open spec fn dup_seq(items: Seq<TypeModel>, arg_map: Map<usize, usize>, next: nat) -> (
        Seq<TypeModel>,
        Map<usize, usize>,
        nat,
    )
        decreases items,
    {
        if items.len() == 0 {
            (Seq::empty(), arg_map, next)
        } else {
            let (rs, m1, n1) = TypeModel::dup_seq(
                items.subrange(0, items.len() - 1),
                arg_map,
                next,
            );
            let (r, m2, n2) = items[items.len() - 1].dup(m1, n1);
            (rs.push(r), m2, n2)
        }
    }

    /// The type with every type variable (and fixed type argument) index `i`
    /// replaced by `m[i]`.
    pub open spec fn rename(self, m: Map<usize, usize>) -> TypeModel
        decreases self,
    {
        match self {
            TypeModel::Tuple(items) => TypeModel::Tuple(TypeModel::rename_seq(items, m)),
            TypeModel::Named(name, id, items) => TypeModel::Named(
                name,
                id,
                TypeModel::rename_seq(items, m),
            ),
            TypeModel::Function(from, to) => TypeModel::Function(
                Box::new(from.rename(m)),
                Box::new(to.rename(m)),
            ),
            TypeModel::Var(i, cs) => TypeModel::Var(m[i], cs),
            TypeModel::FixedTypeArg(name, i, cs) => TypeModel::FixedTypeArg(name, m[i], cs),
        }
    }

    pub open spec fn rename_seq(items: Seq<TypeModel>, m: Map<usize, usize>) -> Seq<TypeModel>
        decreases items,
    {
        Seq::new(
            items.len(),
            |i: int|
                if 0 <= i < items.len() {
                    items[i].rename(m)
                } else {
                    TypeModel::Tuple(Seq::empty())
                },
        )
    }

    /// Whether every type variable index of the type is a key of `m`.
    pub open spec fn indices_in(self, m: Map<usize, usize>) -> bool {
        forall|i: usize| #[trigger] self.contains(i) ==> m.contains_key(i)
    }

    /// The number of arguments of a curried function type.
    pub open spec fn arg_count(self) -> nat
        decreases self,
    {
        match self {
            TypeModel::Function(_, to) => 1 + to.arg_count(),
            _ => 0,
        }
    }

    /// The argument types of a curried function type, outermost first.
    pub open spec fn args(self) -> Seq<TypeModel>
        decreases self,
    {
        match self {
            TypeModel::Function(from, to) => seq![*from] + to.args(),
            _ => Seq::empty(),
        }
    }

    /// What is left of the type after `arg_count` arguments were applied.
    pub open spec fn result_type(self, arg_count: nat) -> TypeModel
        decreases self,
    {
        match self {
            TypeModel::Function(_, to) => if arg_count == 1 {
                *to
            } else if arg_count == 0 {
                self
            } else {
                to.result_type((arg_count - 1) as nat)
            },
            _ => self,
        }
    }

    /// The number of type variables and fixed type arguments in the type.
    pub open spec fn var_count(self) -> nat
        decreases self,
    {
        match self {
            TypeModel::Tuple(items) => TypeModel::var_count_seq(items),
            TypeModel::Named(_, _, items) => TypeModel::var_count_seq(items),
            TypeModel::Function(from, to) => from.var_count() + to.var_count(),
            TypeModel::Var(..) => 1,
            TypeModel::FixedTypeArg(..) => 1,
        }
    }

    pub open spec fn var_count_seq(items: Seq<TypeModel>) -> nat
        decreases items,
    {
        if items.len() == 0 {
            0
        } else {
            TypeModel::var_count_seq(items.subrange(0, items.len() - 1)) + items[items.len()
                - 1].var_count()
        }
    }
}

/// A type variable occurs in a sequence of types exactly when it occurs in one of them.
pub proof fn lemma_any_contains(items: Seq<TypeModel>, index: usize)
    ensures
        TypeModel::contains_flags(items, index).contains(true) <==> exists|k: int|
            0 <= k < items.len() && #[trigger] items[k].contains(index),
{
    let flags = TypeModel::contains_flags(items, index);
    if exists|k: int| 0 <= k < items.len() && #[trigger] items[k].contains(index) {
        let k = choose|k: int| 0 <= k < items.len() && #[trigger] items[k].contains(index);
        assert(flags.len() == items.len());
        assert(flags[k] == (0 <= k < items.len() && items[k].contains(index)));
        assert(flags[k]);
        assert(flags.contains(true));
    } else {
        assert forall|k: int| 0 <= k < flags.len() implies flags[k] == false by {
            assert(!items[k].contains(index));
        }
        assert(!flags.contains(true));
    }
}

impl Type {
    /// A deep copy of the type.
    pub fn clone_type(&self) -> (r: Type)
        ensures
            r.model() == self.model(),
        decreases self,
    {
        match self {
            Type::Tuple(items) => Type::Tuple(Self::clone_types(items)),
            Type::Named(name, id, items) => Type::Named(name.clone(), *id, Self::clone_types(items)),
            Type::Function(from, to) => Type::Function(
                Box::new(from.clone_type()),
                Box::new(to.clone_type()),
            ),
            Type::Var(i, cs) => Type::Var(*i, cs.clone()),
            Type::FixedTypeArg(name, i, cs) => Type::FixedTypeArg(name.clone(), *i, cs.clone()),
        }
    }

    /// A deep copy of each type of the vector.
    pub fn clone_types(items: &Vec<Type>) -> (r: Vec<Type>)
        ensures
            Self::models(r@) == Self::models(items@),
        decreases items,
    {
        let mut r: Vec<Type> = Vec::new();
        let mut i: usize = 0;
        while i < items.len()
            invariant
                i <= items.len(),
                r@.len() == i,
                forall|j: int| 0 <= j < i ==> #[trigger] r@[j].model() == items@[j].model(),
            decreases items.len() - i,
        {
            let t = items[i].clone_type();
            r.push(t);
            i += 1;
        }
        assert forall|j: int| 0 <= j < r@.len() implies #[trigger] Self::models(r@)[j] == Self::models(
            items@,
        )[j] by {
            assert(r@[j].model() == items@[j].model());
        }
        assert(Self::models(r@) =~= Self::models(items@));
        r
    }

    /// Whether the type variable `index` occurs in the type.
    pub fn contains(&self, index: usize) -> (r: bool)
        ensures
            r == self.model().contains(index),
        decreases self,
    {
        match self {
            Type::Tuple(items) => {
                let r = Self::any_contains(items, index);
                assert(self.model() == TypeModel::Tuple(Self::models(items@)));
                r
            },
            Type::Named(_, _, items) => {
                let r = Self::any_contains(items, index);
                assert(self.model() == TypeModel::Named(self.model()->Named_0, self.model()->Named_1, Self::models(items@)));
                r
            },
            Type::Function(from, to) => {
                if from.contains(index) {
                    return true;
                }
                if to.contains(index) {
                    return true;
                }
                return false;
            },
            Type::Var(i, _) => {
                return *i == index;
            },
            Type::FixedTypeArg(_, i, _) => {
                return *i == index;
            },
        }
    }

    fn any_contains(items: &Vec<Type>, index: usize) -> (r: bool)
        ensures
            r == TypeModel::contains_flags(Self::models(items@), index).contains(true),
        decreases items,
    {
        proof {
            lemma_any_contains(Self::models(items@), index);
        }
        let mut i: usize = 0;
        while i < items.len()
            invariant
                i <= items.len(),
                forall|k: int| 0 <= k < i ==> !#[trigger] Self::models(items@)[k].contains(index),
            decreases items.len() - i,
        {
            if items[i].contains(index) {
                proof {
                    let ms = Self::models(items@);
                    assert(ms[i as int].contains(index));
                    assert(exists|k: int| 0 <= k < ms.len() && #[trigger] ms[k].contains(index));
                    lemma_any_contains(ms, index);
                }
                return true;
            }
            i += 1;
        }
        false
    }
}


impl Type {
    /// The type variable with the given classes added to its constraints.
    pub fn add_constraints(&self, constraints: &Vec<ClassId>) -> (r: Type)
        requires
            self.model() is Var,
        ensures
            r.model() == TypeModel::Var(
                self.model()->Var_0,
                self.model()->Var_1 + class_ids_model(constraints@),
            ),
    {
        match self {
            Type::Var(index, cs) => {
                let mut cs = cs.clone();
                let ghost start = cs@;
                let mut i: usize = 0;
                while i < constraints.len()
                    invariant
                        i <= constraints.len(),
                        cs@ == start + constraints@.subrange(0, i as int),
                    decreases constraints.len() - i,
                {
                    cs.push(constraints[i]);
                    i += 1;
                    assert(cs@ =~= start + constraints@.subrange(0, i as int));
                }
                assert(constraints@.subrange(0, i as int) =~= constraints@);
                assert(class_ids_model(cs@) =~= class_ids_model(start) + class_ids_model(
                    constraints@,
                ));
                Type::Var(*index, cs)
            },
            _ => {
                proof {
                    assert(false);
                }
                Type::Tuple(Vec::new())
            },
        }
    }

    /// The shape of the type.
    pub fn get_base_type(&self) -> (r: BaseType)
        ensures
            r == (match self.model() {
                TypeModel::Tuple(..) => BaseType::Tuple,
                TypeModel::Named(_, id, _) => BaseType::Named(TypeDefId { id }),
                TypeModel::Function(..) => BaseType::Function,
                TypeModel::Var(..) => BaseType::Generic,
                TypeModel::FixedTypeArg(..) => BaseType::Generic,
            }),
    {
        match self {
            Type::Tuple(..) => BaseType::Tuple,
            Type::Named(_, id, _) => BaseType::Named(*id),
            Type::Function(..) => BaseType::Function,
            Type::Var(..) => BaseType::Generic,
            Type::FixedTypeArg(..) => BaseType::Generic,
        }
    }

    /// The type with every fixed type argument turned into a type variable.
    pub fn remove_fixed_types(&self) -> (r: Type)
        ensures
            r.model() == self.model().remove_fixed(),
        decreases self,
    {
        match self {
            Type::Tuple(items) => {
                let new_items = Self::remove_fixed_in(items);
                Type::Tuple(new_items)
            },
            Type::Named(name, id, items) => {
                let new_items = Self::remove_fixed_in(items);
                Type::Named(name.clone(), *id, new_items)
            },
            Type::Function(from, to) => {
                let from = from.remove_fixed_types();
                let to = to.remove_fixed_types();
                Type::Function(Box::new(from), Box::new(to))
            },
            Type::Var(..) => self.clone_type(),
            Type::FixedTypeArg(_, index, constraints) => Type::Var(*index, constraints.clone()),
        }
    }

    fn remove_fixed_in(items: &Vec<Type>) -> (r: Vec<Type>)
        ensures
            Self::models(r@) == TypeModel::remove_fixed_seq(Self::models(items@)),
        decreases items,
    {
        let mut r: Vec<Type> = Vec::new();
        let mut i: usize = 0;
        while i < items.len()
            invariant
                i <= items.len(),
                r@.len() == i,
                forall|j: int|
                    0 <= j < i ==> #[trigger] r@[j].model() == items@[j].model().remove_fixed(),
            decreases items.len() - i,
        {
            let t = items[i].remove_fixed_types();
            r.push(t);
            i += 1;
        }
        assert forall|j: int| 0 <= j < r@.len() implies #[trigger] Self::models(r@)[j]
            == TypeModel::remove_fixed_seq(Self::models(items@))[j] by {
            assert(r@[j].model() == items@[j].model().remove_fixed());
        }
        assert(Self::models(r@) =~= TypeModel::remove_fixed_seq(Self::models(items@)));
        r
    }

    /// The number of arguments of a curried function type.
    pub fn get_arg_count(&self) -> (r: usize)
        requires
            self.model().arg_count() <= usize::MAX,
        ensures
            r == self.model().arg_count(),
        decreases self,
    {
        match self {
            Type::Tuple(..) => 0,
            Type::Named(..) => 0,
            Type::Function(_, to) => 1 + to.get_arg_count(),
            Type::Var(..) => 0,
            Type::FixedTypeArg(..) => 0,
        }
    }

    /// Appends the argument types of a curried function type to `args`.
    pub fn get_args(&self, args: &mut Vec<Type>)
        ensures
            Self::models(final(args)@) == Self::models(old(args)@) + self.model().args(),
        decreases self,
    {
        match self {
            Type::Tuple(..) => {
                assert(Self::models(args@) =~= Self::models(args@) + self.model().args());
            },
            Type::Named(..) => {
                assert(Self::models(args@) =~= Self::models(args@) + self.model().args());
            },
            Type::Function(from, to) => {
                let ghost before = Self::models(args@);
                let f = from.clone_type();
                args.push(f);
                assert(Self::models(args@) =~= before + seq![from.model()]);
                to.get_args(args);
                assert(seq![from.model()] + to.model().args() =~= self.model().args());
                assert(Self::models(args@) =~= before + self.model().args());
            },
            Type::Var(..) => {
                assert(Self::models(args@) =~= Self::models(args@) + self.model().args());
            },
            Type::FixedTypeArg(..) => {
                assert(Self::models(args@) =~= Self::models(args@) + self.model().args());
            },
        }
    }

    /// What is left of the type after `arg_count` arguments were applied.
    pub fn get_result_type(&self, arg_count: usize) -> (r: Type)
        ensures
            r.model() == self.model().result_type(arg_count as nat),
        decreases self,
    {
        match self {
            Type::Function(_, to) => {
                if arg_count == 1 {
                    to.clone_type()
                } else {
                    if arg_count == 0 {
                        self.clone_type()
                    } else {
                        to.get_result_type(arg_count - 1)
                    }
                }
            },
            _ => self.clone_type(),
        }
    }
}


impl Type {
    /// A copy of the type whose type variables are renamed through `arg_map`,
    /// where each index not yet in the map gets a fresh index from `type_var_generator`
    /// (see [`TypeModel::dup`]).
    pub fn duplicate(
        &self,
        arg_map: &mut BTreeMap<usize, usize>,
        type_var_generator: &mut TypeVarGenerator,
    ) -> (r: Type)
        requires
            old(type_var_generator).next + self.model().var_count() <= usize::MAX,
        ensures
            (r.model(), final(arg_map)@, final(type_var_generator).next as nat) == self.model().dup(
                old(arg_map)@,
                old(type_var_generator).next as nat,
            ),
            final(type_var_generator).next <= old(type_var_generator).next + self.model().var_count(),
        decreases self,
    {
        match self {
            Type::Tuple(items) => {
                let new_items = Self::duplicate_all(items, arg_map, type_var_generator);
                Type::Tuple(new_items)
            },
            Type::Named(name, id, items) => {
                let new_items = Self::duplicate_all(items, arg_map, type_var_generator);
                Type::Named(name.clone(), *id, new_items)
            },
            Type::Function(from, to) => {
                let from = from.duplicate(arg_map, type_var_generator);
                let to = to.duplicate(arg_map, type_var_generator);
                Type::Function(Box::new(from), Box::new(to))
            },
            Type::Var(index, constraints) => {
                let new_index = Self::map_index(*index, arg_map, type_var_generator);
                Type::Var(new_index, constraints.clone())
            },
            Type::FixedTypeArg(name, index, constraints) => {
                let new_index = Self::map_index(*index, arg_map, type_var_generator);
                Type::FixedTypeArg(name.clone(), new_index, constraints.clone())
            },
        }
    }

    fn map_index(
        index: usize,
        arg_map: &mut BTreeMap<usize, usize>,
        type_var_generator: &mut TypeVarGenerator,
    ) -> (r: usize)
        requires
            old(type_var_generator).next < usize::MAX,
        ensures
            old(arg_map)@.contains_key(index) ==> {
                &&& r == old(arg_map)@[index]
                &&& final(arg_map)@ == old(arg_map)@
                &&& final(type_var_generator).next == old(type_var_generator).next
            },
            !old(arg_map)@.contains_key(index) ==> {
                &&& r == old(type_var_generator).next
                &&& final(arg_map)@ == old(arg_map)@.insert(index, r)
                &&& final(type_var_generator).next == old(type_var_generator).next + 1
            },
    {
        match arg_map.get(&index) {
            Some(v) => *v,
            None => {
                let n = type_var_generator.get_new_index();
                arg_map.insert(index, n);
                n
            },
        }
    }

    fn duplicate_all(
        items: &Vec<Type>,
        arg_map: &mut BTreeMap<usize, usize>,
        type_var_generator: &mut TypeVarGenerator,
    ) -> (r: Vec<Type>)
        requires
            old(type_var_generator).next + TypeModel::var_count_seq(Self::models(items@)) <= usize::MAX,
        ensures
            (Self::models(r@), final(arg_map)@, final(type_var_generator).next as nat)
                == TypeModel::dup_seq(
                Self::models(items@),
                old(arg_map)@,
                old(type_var_generator).next as nat,
            ),
            final(type_var_generator).next <= old(type_var_generator).next
                + TypeModel::var_count_seq(Self::models(items@)),
        decreases items,
    {
        let ghost ms = Self::models(items@);
        let ghost start_map = arg_map@;
        let ghost start_next = type_var_generator.next as nat;
        let mut r: Vec<Type> = Vec::new();
        let mut i: usize = 0;
        proof {
            assert(ms.subrange(0, 0) =~= Seq::<TypeModel>::empty());
            assert(Self::models(r@) =~= Seq::<TypeModel>::empty());
        }
        while i < items.len()
            invariant
                i <= items.len(),
                ms == Self::models(items@),
                start_next + TypeModel::var_count_seq(ms) <= usize::MAX,
                (Self::models(r@), arg_map@, type_var_generator.next as nat) == TypeModel::dup_seq(
                    ms.subrange(0, i as int),
                    start_map,
                    start_next,
                ),
                type_var_generator.next <= start_next + TypeModel::var_count_seq(
                    ms.subrange(0, i as int),
                ),
            decreases items.len() - i,
        {
            proof {
                let pre = ms.subrange(0, i as int + 1);
                assert(pre.subrange(0, pre.len() - 1) =~= ms.subrange(0, i as int));
                assert(pre[pre.len() - 1] == items@[i as int].model());
                lemma_var_count_prefix(ms, i as int + 1);
            }
            let t = items[i].duplicate(arg_map, type_var_generator);
            let ghost before = r@;
            r.push(t);
            proof {
                assert(Self::models(r@) =~= Self::models(before).push(t.model()));
            }
            i += 1;
        }
        proof {
            assert(ms.subrange(0, i as int) =~= ms);
        }
        r
    }
}

/// The variables of a prefix are no more than those of the whole sequence.
pub proof fn lemma_var_count_prefix(items: Seq<TypeModel>, n: int)
    requires
        0 <= n <= items.len(),
    ensures
        TypeModel::var_count_seq(items.subrange(0, n)) <= TypeModel::var_count_seq(items),
    decreases items.len() - n,
{
    if n < items.len() {
        lemma_var_count_prefix(items, n + 1);
        let pre = items.subrange(0, n + 1);
        assert(pre.subrange(0, pre.len() - 1) =~= items.subrange(0, n));
    } else {
        assert(items.subrange(0, n) =~= items);
    }
}


/// Removing fixed type arguments a second time changes nothing.
pub proof fn lemma_remove_fixed_idempotent(t: TypeModel)
    ensures
        t.remove_fixed().remove_fixed() == t.remove_fixed(),
    decreases t,
{
    match t {
        TypeModel::Tuple(items) => {
            lemma_remove_fixed_seq_idempotent(items);
        },
        TypeModel::Named(_, _, items) => {
            lemma_remove_fixed_seq_idempotent(items);
        },
        TypeModel::Function(from, to) => {
            lemma_remove_fixed_idempotent(*from);
            lemma_remove_fixed_idempotent(*to);
        },
        _ => {},
    }
}

proof fn lemma_remove_fixed_seq_idempotent(items: Seq<TypeModel>)
    ensures
        TypeModel::remove_fixed_seq(TypeModel::remove_fixed_seq(items)) == TypeModel::remove_fixed_seq(
            items,
        ),
    decreases items,
{
    let once = TypeModel::remove_fixed_seq(items);
    assert forall|k: int| 0 <= k < items.len() implies #[trigger] TypeModel::remove_fixed_seq(
        once,
    )[k] == once[k] by {
        lemma_remove_fixed_idempotent(items[k]);
    }
    assert(TypeModel::remove_fixed_seq(once) =~= once);
}

/// After removing fixed type arguments none is left.
pub proof fn lemma_remove_fixed_no_fixed(t: TypeModel)
    ensures
        t.remove_fixed().no_fixed(),
    decreases t,
{
    match t {
        TypeModel::Tuple(items) => {
            lemma_remove_fixed_seq_no_fixed(items);
        },
        TypeModel::Named(_, _, items) => {
            lemma_remove_fixed_seq_no_fixed(items);
        },
        TypeModel::Function(from, to) => {
            lemma_remove_fixed_no_fixed(*from);
            lemma_remove_fixed_no_fixed(*to);
        },
        _ => {},
    }
}

proof fn lemma_remove_fixed_seq_no_fixed(items: Seq<TypeModel>)
    ensures
        !TypeModel::fixed_flags(TypeModel::remove_fixed_seq(items)).contains(true),
    decreases items,
{
    let once = TypeModel::remove_fixed_seq(items);
    let flags = TypeModel::fixed_flags(once);
    assert forall|k: int| 0 <= k < flags.len() implies flags[k] == false by {
        lemma_remove_fixed_no_fixed(items[k]);
    }
}

/// Removing fixed type arguments keeps every type variable index that occurs.
pub proof fn lemma_remove_fixed_contains(t: TypeModel, index: usize)
    ensures
        t.remove_fixed().contains(index) == t.contains(index),
    decreases t,
{
    match t {
        TypeModel::Tuple(items) => {
            lemma_remove_fixed_seq_contains(items, index);
        },
        TypeModel::Named(_, _, items) => {
            lemma_remove_fixed_seq_contains(items, index);
        },
        TypeModel::Function(from, to) => {
            lemma_remove_fixed_contains(*from, index);
            lemma_remove_fixed_contains(*to, index);
        },
        _ => {},
    }
}

proof fn lemma_remove_fixed_seq_contains(items: Seq<TypeModel>, index: usize)
    ensures
        TypeModel::contains_flags(TypeModel::remove_fixed_seq(items), index).contains(true)
            == TypeModel::contains_flags(items, index).contains(true),
    decreases items,
{
    let once = TypeModel::remove_fixed_seq(items);
    assert forall|k: int| 0 <= k < items.len() implies #[trigger] TypeModel::contains_flags(
        once,
        index,
    )[k] == TypeModel::contains_flags(items, index)[k] by {
        lemma_remove_fixed_contains(items[k], index);
    }
    assert(TypeModel::contains_flags(once, index) =~= TypeModel::contains_flags(items, index));
}

/// A curried function type has as many argument types as its argument count.
pub proof fn lemma_args_len(t: TypeModel)
    ensures
        t.args().len() == t.arg_count(),
    decreases t,
{
    if let TypeModel::Function(_, to) = t {
        lemma_args_len(*to);
    }
}

/// The function type that takes `args`, outermost first, and leaves `result`.
pub open spec fn curried(args: Seq<TypeModel>, result: TypeModel) -> TypeModel
    decreases args.len(),
{
    if args.len() == 0 {
        result
    } else {
        TypeModel::Function(Box::new(args[0]), Box::new(curried(args.drop_first(), result)))
    }
}

/// Splitting a type into its arguments and what is left gives it back: with
/// no argument applied nothing is taken off; for `m` up to its number of
/// arguments, the first `m` arguments around what is left after `m` make the
/// type again; and applying more arguments than it takes leaves what is left
/// after all of them.
pub proof fn lemma_result_type_round_trip(t: TypeModel, m: nat)
    ensures
        t.result_type(0) == t,
        m <= t.arg_count() ==> curried(t.args().take(m as int), t.result_type(m)) == t,
        m > t.arg_count() ==> t.result_type(m) == t.result_type(t.arg_count()),
    decreases t,
{
    lemma_args_len(t);
    match t {
        TypeModel::Function(from, to) => {
            if m >= 1 {
                lemma_result_type_round_trip(*to, (m - 1) as nat);
                lemma_args_len(*to);
                if m <= t.arg_count() {
                    let rest = to.args().take(m - 1);
                    assert(t.args().take(m as int) =~= seq![*from] + rest);
                    assert((seq![*from] + rest).drop_first() =~= rest);
                    assert((seq![*from] + rest)[0] == *from);
                    if m == 1 {
                        assert(to.result_type(0) == *to);
                    }
                } else {
                    if to.arg_count() == 0 {
                        assert(to.result_type((m - 1) as nat) == *to) by {
                            lemma_result_type_round_trip(*to, 0);
                            if (m - 1) as nat > 0 {
                                assert(!(*to is Function));
                            }
                        }
                    }
                }
            } else {
                assert(t.args().take(0) =~= Seq::<TypeModel>::empty());
            }
        },
        _ => {
            if m == 0 {
                assert(t.args().take(0) =~= Seq::<TypeModel>::empty());
            }
        },
    }
}

/// Once all its arguments are applied, what is left of a type is not a function.
pub proof fn lemma_result_type_not_function(t: TypeModel)
    ensures
        !(t.result_type(t.arg_count()) is Function),
    decreases t,
{
    if let TypeModel::Function(_, to) = t {
        lemma_result_type_not_function(*to);
        if to.arg_count() == 0 {
            assert(!(*to is Function));
        }
    }
}

/// Removing fixed type arguments keeps the argument count.
pub proof fn lemma_remove_fixed_arg_count(t: TypeModel)
    ensures
        t.remove_fixed().arg_count() == t.arg_count(),
    decreases t,
{
    if let TypeModel::Function(_, to) = t {
        lemma_remove_fixed_arg_count(*to);
    }
}


proof fn lemma_submap_insert(m: Map<usize, usize>, k: usize, v: usize)
    requires
        !m.contains_key(k),
    ensures
        m.submap_of(m.insert(k, v)),
{
    assert forall|j: usize| #[trigger] m.dom().contains(j) implies #[trigger] m.insert(
        k,
        v,
    ).dom().contains(j) && m[j] == m.insert(k, v)[j] by {}
}

/// A type that occurs among the items occurs in the sequence.
proof fn lemma_item_contains(items: Seq<TypeModel>, k: int, index: usize)
    requires
        0 <= k < items.len(),
        items[k].contains(index),
    ensures
        TypeModel::contains_flags(items, index).contains(true),
{
    lemma_any_contains(items, index);
}

/// Renaming through a larger map changes nothing when the smaller one already
/// covers every index of the type.
pub proof fn lemma_rename_extend(t: TypeModel, m1: Map<usize, usize>, m2: Map<usize, usize>)
    requires
        t.indices_in(m1),
        m1.submap_of(m2),
    ensures
        t.rename(m1) == t.rename(m2),
    decreases t,
{
    match t {
        TypeModel::Tuple(items) => {
            assert forall|i: usize| #[trigger]
                TypeModel::contains_flags(items, i).contains(true) implies m1.contains_key(i) by {
                assert(t.contains(i));
            }
            lemma_rename_seq_extend(items, m1, m2);
            assert(TypeModel::rename_seq(items, m1) == TypeModel::rename_seq(items, m2));
            assert(t.rename(m1) == TypeModel::Tuple(TypeModel::rename_seq(items, m1)));
            assert(t.rename(m2) == TypeModel::Tuple(TypeModel::rename_seq(items, m2)));
        },
        TypeModel::Named(_, _, items) => {
            assert forall|i: usize| #[trigger]
                TypeModel::contains_flags(items, i).contains(true) implies m1.contains_key(i) by {
                assert(t.contains(i));
            }
            lemma_rename_seq_extend(items, m1, m2);
        },
        TypeModel::Function(from, to) => {
            assert forall|i: usize| #[trigger] from.contains(i) implies m1.contains_key(i) by {
                assert(t.contains(i));
            }
            assert forall|i: usize| #[trigger] to.contains(i) implies m1.contains_key(i) by {
                assert(t.contains(i));
            }
            lemma_rename_extend(*from, m1, m2);
            lemma_rename_extend(*to, m1, m2);
        },
        TypeModel::Var(i, _) => {
            assert(t.contains(i));
            assert(m1.contains_key(i));
            assert(m2.contains_key(i));
            assert(m2[i] == m1[i]);
        },
        TypeModel::FixedTypeArg(_, i, _) => {
            assert(t.contains(i));
            assert(m1.contains_key(i));
            assert(m2.contains_key(i));
            assert(m2[i] == m1[i]);
        },
    }
}

proof fn lemma_rename_seq_extend(items: Seq<TypeModel>, m1: Map<usize, usize>, m2: Map<usize, usize>)
    requires
        forall|i: usize|
            #[trigger] TypeModel::contains_flags(items, i).contains(true) ==> m1.contains_key(i),
        m1.submap_of(m2),
    ensures
        TypeModel::rename_seq(items, m1) == TypeModel::rename_seq(items, m2),
    decreases items,
{
    assert forall|k: int| 0 <= k < items.len() implies #[trigger] TypeModel::rename_seq(items, m1)[k]
        == TypeModel::rename_seq(items, m2)[k] by {
        assert forall|i: usize| #[trigger] items[k].contains(i) implies m1.contains_key(i) by {
            lemma_item_contains(items, k, i);
        }
        lemma_rename_extend(items[k], m1, m2);
    }
    assert(TypeModel::rename_seq(items, m1) =~= TypeModel::rename_seq(items, m2));
}

/// What [`Type::duplicate`] computes: the copy is the type renamed through the
/// final map, the final map extends the given one and covers every index of
/// the type, the indices it adds are indices of the type, each mapped to a
/// fresh index of its own in `next .. next'`, and the fresh counter only
/// grows.
pub proof fn lemma_dup(t: TypeModel, m: Map<usize, usize>, next: nat)
    requires
        next + t.var_count() <= usize::MAX,
    ensures
        ({
            let (r, m2, n2) = t.dup(m, next);
            &&& n2 <= next + t.var_count()
            &&& r == t.rename(m2)
            &&& m.submap_of(m2)
            &&& t.indices_in(m2)
            &&& next <= n2
            &&& forall|i: usize|
                #[trigger] m2.contains_key(i) && !m.contains_key(i) ==> next <= m2[i] < n2
            &&& forall|i: usize| #[trigger] m2.contains_key(i) ==> m.contains_key(i) || t.contains(i)
            &&& forall|i: usize, j: usize|
                #![trigger m2[i], m2[j]]
                m2.contains_key(i) && !m.contains_key(i) && m2.contains_key(j) && !m.contains_key(j) && i != j
                    ==> m2[i] != m2[j]
        }),
    decreases t,
{
    match t {
        TypeModel::Tuple(items) => {
            lemma_dup_seq(items, m, next);
            let m2 = t.dup(m, next).1;
            assert forall|i: usize| #[trigger] t.contains(i) implies m2.contains_key(i) by {
                assert(TypeModel::contains_flags(items, i).contains(true));
            }
        },
        TypeModel::Named(_, _, items) => {
            lemma_dup_seq(items, m, next);
            let m2 = t.dup(m, next).1;
            assert forall|i: usize| #[trigger] t.contains(i) implies m2.contains_key(i) by {
                assert(TypeModel::contains_flags(items, i).contains(true));
            }
        },
        TypeModel::Function(from, to) => {
            let (f, m1, n1) = from.dup(m, next);
            let (tt, m2, n2) = to.dup(m1, n1);
            lemma_dup(*from, m, next);
            lemma_dup(*to, m1, n1);
            lemma_rename_extend(*from, m1, m2);
            vstd::map_lib::lemma_submap_of_trans(m, m1, m2);
            assert forall|i: usize| #[trigger] t.contains(i) implies m2.contains_key(i) by {
                if from.contains(i) {
                    assert(m1.contains_key(i));
                    assert(m2.contains_key(i));
                } else {
                    assert(to.contains(i));
                }
            }
            assert forall|i: usize| #[trigger] m2.contains_key(i) && !m.contains_key(i) implies next
                <= m2[i] < n2 by {
                if m1.contains_key(i) {
                    assert(m2[i] == m1[i]);
                }
            }
            assert forall|i: usize| #[trigger] m2.contains_key(i) implies m.contains_key(i) || t.contains(i) by {
                if m1.contains_key(i) {
                    assert(m.contains_key(i) || from.contains(i));
                } else {
                    assert(to.contains(i));
                }
            }
            assert forall|i: usize, j: usize|
                #![trigger m2[i], m2[j]]
                m2.contains_key(i) && !m.contains_key(i) && m2.contains_key(j) && !m.contains_key(j) && i != j
                    implies m2[i] != m2[j] by {
                if m1.contains_key(i) {
                    assert(m2[i] == m1[i]);
                }
                if m1.contains_key(j) {
                    assert(m2[j] == m1[j]);
                }
            }
        },
        TypeModel::Var(i, _) => {
            assert forall|j: usize| #[trigger] t.contains(j) implies t.dup(m, next).1.contains_key(
                j,
            ) by {}
            if !m.contains_key(i) {
                lemma_submap_insert(m, i, next as usize);
            }
        },
        TypeModel::FixedTypeArg(_, i, _) => {
            assert forall|j: usize| #[trigger] t.contains(j) implies t.dup(m, next).1.contains_key(
                j,
            ) by {}
            if !m.contains_key(i) {
                lemma_submap_insert(m, i, next as usize);
            }
        },
    }
}

proof fn lemma_dup_seq(items: Seq<TypeModel>, m: Map<usize, usize>, next: nat)
    requires
        next + TypeModel::var_count_seq(items) <= usize::MAX,
    ensures
        ({
            let (rs, m2, n2) = TypeModel::dup_seq(items, m, next);
            &&& n2 <= next + TypeModel::var_count_seq(items)
            &&& rs == TypeModel::rename_seq(items, m2)
            &&& m.submap_of(m2)
            &&& forall|i: usize|
                #[trigger] TypeModel::contains_flags(items, i).contains(true) ==> m2.contains_key(i)
            &&& next <= n2
            &&& forall|i: usize|
                #[trigger] m2.contains_key(i) && !m.contains_key(i) ==> next <= m2[i] < n2
            &&& forall|i: usize|
                #[trigger] m2.contains_key(i) ==> m.contains_key(i) || TypeModel::contains_flags(
                    items,
                    i,
                ).contains(true)
            &&& forall|i: usize, j: usize|
                #![trigger m2[i], m2[j]]
                m2.contains_key(i) && !m.contains_key(i) && m2.contains_key(j) && !m.contains_key(j) && i != j
                    ==> m2[i] != m2[j]
        }),
    decreases items,
{
    let (rs, m2, n2) = TypeModel::dup_seq(items, m, next);
    if items.len() == 0 {
        assert(rs =~= TypeModel::rename_seq(items, m2));
        assert(m.submap_of(m2));
        assert forall|i: usize| #[trigger] TypeModel::contains_flags(items, i).contains(
            true,
        ) implies m2.contains_key(i) by {
            lemma_any_contains(items, i);
        }
    } else {
        let pre = items.subrange(0, items.len() - 1);
        let last = items[items.len() - 1];
        let (rs1, m1, n1) = TypeModel::dup_seq(pre, m, next);
        let (r, mm, nn) = last.dup(m1, n1);
        lemma_dup_seq(pre, m, next);
        lemma_dup(last, m1, n1);
        lemma_rename_seq_extend(pre, m1, m2);
        vstd::map_lib::lemma_submap_of_trans(m, m1, m2);
        assert forall|k: int| 0 <= k < items.len() implies #[trigger] rs[k]
            == TypeModel::rename_seq(items, m2)[k] by {
            if k < items.len() - 1 {
                assert(pre[k] == items[k]);
                assert(rs1[k] == TypeModel::rename_seq(pre, m2)[k]);
            }
        }
        assert(rs =~= TypeModel::rename_seq(items, m2));
        assert forall|i: usize| #[trigger] TypeModel::contains_flags(items, i).contains(
            true,
        ) implies m2.contains_key(i) by {
            lemma_any_contains(items, i);
            let k = choose|k: int| 0 <= k < items.len() && #[trigger] items[k].contains(i);
            if k < items.len() - 1 {
                assert(pre[k] == items[k]);
                lemma_item_contains(pre, k, i);
                assert(m1.contains_key(i));
                assert(m2.contains_key(i));
            } else {
                assert(last.contains(i));
            }
        }
        assert forall|i: usize| #[trigger] m2.contains_key(i) && !m.contains_key(i) implies next
            <= m2[i] < n2 by {
            if m1.contains_key(i) {
                assert(m2.contains_key(i));
                assert(m2[i] == m1[i]);
            }
        }
        assert forall|i: usize| #[trigger] m2.contains_key(i) implies m.contains_key(i)
            || TypeModel::contains_flags(items, i).contains(true) by {
            if m1.contains_key(i) {
                if !m.contains_key(i) {
                    lemma_any_contains(pre, i);
                    let k = choose|k: int| 0 <= k < pre.len() && #[trigger] pre[k].contains(i);
                    assert(pre[k] == items[k]);
                    lemma_item_contains(items, k, i);
                }
            } else {
                assert(last.contains(i));
                lemma_item_contains(items, items.len() - 1, i);
            }
        }
        assert forall|i: usize, j: usize|
            #![trigger m2[i], m2[j]]
            m2.contains_key(i) && !m.contains_key(i) && m2.contains_key(j) && !m.contains_key(j) && i != j
                implies m2[i] != m2[j] by {
            if m1.contains_key(i) {
                assert(m2[i] == m1[i]);
            }
            if m1.contains_key(j) {
                assert(m2[j] == m1[j]);
            }
        }
    }
}


/// Two sequences of classes have the same indices exactly when they are equal.
pub proof fn lemma_class_ids_model_eq(a: Seq<ClassId>, b: Seq<ClassId>)
    ensures
        class_ids_model(a) == class_ids_model(b) <==> a == b,
{
    if class_ids_model(a) == class_ids_model(b) {
        assert(a.len() == class_ids_model(a).len());
        assert(b.len() == class_ids_model(b).len());
        assert forall|i: int| 0 <= i < a.len() implies a[i] == b[i] by {
            assert(class_ids_model(a)[i] == class_ids_model(b)[i]);
        }
        assert(a =~= b);
    }
}

/// Whether two vectors hold the same classes, in the same order.
pub fn same_classes(a: &Vec<ClassId>, b: &Vec<ClassId>) -> (r: bool)
    ensures
        r == (class_ids_model(a@) == class_ids_model(b@)),
{
    proof {
        lemma_class_ids_model_eq(a@, b@);
    }
    if a.len() != b.len() {
        assert(class_ids_model(a@).len() != class_ids_model(b@).len());
        return false;
    }
    let mut i: usize = 0;
    while i < a.len()
        invariant
            i <= a.len(),
            a.len() == b.len(),
            forall|j: int| 0 <= j < i ==> a@[j] == b@[j],
        decreases a.len() - i,
    {
        if a[i].id != b[i].id {
            assert(class_ids_model(a@)[i as int] != class_ids_model(b@)[i as int]);
            return false;
        }
        i += 1;
    }
    assert(a@ =~= b@);
    true
}

impl Type {
    /// Whether the two types are the same (structural equality).
    pub fn equals(&self, other: &Type) -> (r: bool)
        ensures
            r == (self.model() == other.model()),
        decreases self,
    {
        match (self, other) {
            (Type::Tuple(a), Type::Tuple(b)) => Self::equals_all(a, b),
            (Type::Named(n1, id1, a), Type::Named(n2, id2, b)) => {
                if *n1 != *n2 || id1.id != id2.id {
                    return false;
                }
                Self::equals_all(a, b)
            },
            (Type::Function(f1, t1), Type::Function(f2, t2)) => {
                if !f1.equals(f2) {
                    return false;
                }
                t1.equals(t2)
            },
            (Type::Var(i1, c1), Type::Var(i2, c2)) => *i1 == *i2 && same_classes(c1, c2),
            (Type::FixedTypeArg(n1, i1, c1), Type::FixedTypeArg(n2, i2, c2)) => {
                *n1 == *n2 && *i1 == *i2 && same_classes(c1, c2)
            },
            _ => false,
        }
    }

    /// Whether two vectors hold the same types, in the same order.
    pub fn equals_all_types(a: &Vec<Type>, b: &Vec<Type>) -> (r: bool)
        ensures
            r == (Self::models(a@) == Self::models(b@)),
    {
        Self::equals_all(a, b)
    }

    fn equals_all(a: &Vec<Type>, b: &Vec<Type>) -> (r: bool)
        ensures
            r == (Self::models(a@) == Self::models(b@)),
        decreases a,
    {
        if a.len() != b.len() {
            assert(Self::models(a@).len() != Self::models(b@).len());
            return false;
        }
        let mut i: usize = 0;
        while i < a.len()
            invariant
                i <= a.len(),
                a.len() == b.len(),
                forall|j: int| 0 <= j < i ==> #[trigger] a@[j].model() == b@[j].model(),
            decreases a.len() - i,
        {
            if !a[i].equals(&b[i]) {
                assert(Self::models(a@)[i as int] != Self::models(b@)[i as int]);
                return false;
            }
            i += 1;
        }
        assert forall|j: int| 0 <= j < a@.len() implies #[trigger] Self::models(a@)[j]
            == Self::models(b@)[j] by {
            assert(a@[j].model() == b@[j].model());
        }
        assert(Self::models(a@) =~= Self::models(b@));
        true
    }
}

} // verus!
