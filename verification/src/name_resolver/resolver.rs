use crate::ir::class::ClassId as IrClassId;
use crate::location::LocationId;
use crate::name_resolver::error::Error;
use crate::name_resolver::error::ResolverError;
use crate::name_resolver::item::Item;
use crate::name_resolver::module::import_entries;
use crate::name_resolver::module::Module;
use crate::syntax::module::Module as AstModule;
use crate::util::assoc_map;
use crate::util::distinct_keys;
use crate::util::lemma_assoc_contains;
use crate::util::lemma_assoc_index;
use crate::util::lemma_assoc_push;
use crate::util::lemma_assoc_update;
use crate::name_resolver::type_arg_constraint_collector::lemma_sorted_distinct;
use crate::name_resolver::type_arg_constraint_collector::lemma_sorted_insert;
use crate::name_resolver::type_arg_constraint_collector::sorted_keys;
use crate::util::lemma_assoc_insert;
use crate::util::lemma_seq_lt_total;
use crate::util::lemma_seq_lt_trans;
use crate::util::seq_lt;
use crate::util::str_eq;
use crate::util::str_less;
use vstd::prelude::*;

verus! {

/// Resolves the names of a program, module by module.
#[derive(Debug)]
pub struct Resolver {
    modules: Vec<(String, Module)>,
}

/// The modules of the resolver, by the characters of their names.
pub open spec fn module_entries(v: Seq<(String, Module)>) -> Seq<(Seq<char>, Module)> {
    Seq::new(v.len(), |i: int| (v[i].0@, v[i].1))
}

/// The modules registered under each name, by the characters of the names.
pub open spec fn registry_entries(v: Seq<(String, Vec<Module>)>) -> Seq<(Seq<char>, Seq<Module>)> {
    Seq::new(v.len(), |i: int| (v[i].0@, v[i].1@))
}

/// The locations of a sequence of modules.
pub open spec fn locations(ms: Seq<Module>) -> Seq<LocationId> {
    Seq::new(ms.len(), |i: int| ms[i].location_id)
}

/// For each name registered with more than one module, in order, the name
/// and the locations of its modules.
pub open spec fn conflicts_of(entries: Seq<(Seq<char>, Seq<Module>)>) -> Seq<(Seq<char>, Seq<LocationId>)>
    decreases entries.len(),
{
    if entries.len() == 0 {
        Seq::empty()
    } else {
        let pre = conflicts_of(entries.drop_last());
        if entries.last().1.len() > 1 {
            pre.push((entries.last().0, locations(entries.last().1)))
        } else {
            pre
        }
    }
}

/// `m` with each registered name sent to its first module, in order.
pub open spec fn insert_firsts(m: Map<Seq<char>, Module>, entries: Seq<(Seq<char>, Seq<Module>)>) -> Map<Seq<char>, Module>
    decreases entries.len(),
{
    if entries.len() == 0 {
        m
    } else {
        insert_firsts(m, entries.drop_last()).insert(entries.last().0, entries.last().1[0])
    }
}

/// The pairs of a conflict list, by the characters of the names.
pub open spec fn conflict_entries(v: Seq<(String, Vec<LocationId>)>) -> Seq<(Seq<char>, Seq<LocationId>)> {
    Seq::new(v.len(), |i: int| (v[i].0@, v[i].1@))
}

/// Whether `m` is the module that registering `ast_module` creates.
pub open spec fn registered_from(m: Module, ast_module: AstModule) -> bool {
    &&& m.id == ast_module.id
    &&& m.name@ == ast_module.name@
    &&& m.location_id == ast_module.location_id
    &&& m.is_empty()
}

impl Resolver {
    /// The module of each name.
    pub closed spec fn modules_map(&self) -> Map<Seq<char>, Module> {
        assoc_map(module_entries(self.modules@))
    }

    /// No name is filed twice.
    pub closed spec fn wf(&self) -> bool {
        distinct_keys(module_entries(self.modules@))
    }

    pub fn new() -> (r: Resolver)
        ensures
            r.wf(),
            r.modules_map() == Map::<Seq<char>, Module>::empty(),
    {
        let r = Resolver { modules: Vec::new() };
        assert(module_entries(r.modules@) =~= Seq::empty());
        r
    }

    /// Creates the resolver's module for a module of the syntax tree and adds
    /// it to the modules registered under its name; the names of the registry
    /// stay in increasing order.
    pub fn register_module(&mut self, ast_module: &AstModule, modules: &mut Vec<(String, Vec<Module>)>)
        requires
            sorted_keys(registry_entries(old(modules)@)),
        ensures
            sorted_keys(registry_entries(final(modules)@)),
            ({
                let before = assoc_map(registry_entries(old(modules)@));
                let after = assoc_map(registry_entries(final(modules)@));
                let name = ast_module.name@;
                &&& after.dom() == before.dom().insert(name)
                &&& forall|n: Seq<char>| n != name && before.contains_key(n) ==> after[n] == before[n]
                &&& after[name].len() >= 1
                &&& after[name].drop_last() == (if before.contains_key(name) {
                    before[name]
                } else {
                    Seq::empty()
                })
                &&& registered_from(after[name].last(), *ast_module)
            }),
    {
        let module = Module::new(ast_module.id, ast_module.name.clone(), ast_module.location_id);
        let ghost entries = registry_entries(modules@);
        let ghost name = ast_module.name@;
        proof {
            lemma_sorted_distinct(entries);
        }
        let mut i: usize = 0;
        while i < modules.len() && str_less(modules[i].0.as_str(), ast_module.name.as_str())
            invariant
                i <= modules@.len(),
                entries == registry_entries(modules@),
                name == ast_module.name@,
                forall|j: int| 0 <= j < i ==> seq_lt((#[trigger] entries[j]).0, name),
            decreases modules@.len() - i,
        {
            assert(entries[i as int].0 == modules@[i as int].0@);
            i += 1;
        }
        let found = i < modules.len() && str_eq(modules[i].0.as_str(), ast_module.name.as_str());
        proof {
            if i < modules@.len() {
                assert(entries[i as int].0 == modules@[i as int].0@);
            }
        }
        let ghost before = assoc_map(entries);
        if found {
            proof {
                lemma_assoc_index(entries, i as int);
            }
            let ghost old_list = entries[i as int].1;
            let (key, mut mods) = modules.remove(i);
            mods.push(module);
            let ghost new_list = mods@;
            modules.insert(i, (key, mods));
            proof {
                assert(registry_entries(modules@) =~= entries.update(i as int, (name, new_list)));
                lemma_assoc_update(entries, i as int, new_list);
                assert(new_list.drop_last() =~= old_list);
                assert(assoc_map(registry_entries(modules@)).dom() =~= before.dom().insert(name));
                let ne = registry_entries(modules@);
                assert forall|a: int, b: int| 0 <= a < b < ne.len() implies seq_lt(ne[a].0, ne[b].0) by {
                    assert(ne[a].0 == entries[a].0 && ne[b].0 == entries[b].0);
                }
            }
        } else {
            proof {
                if i < entries.len() {
                    lemma_seq_lt_total(entries[i as int].0, name);
                }
                lemma_assoc_contains(entries, name);
                if before.contains_key(name) {
                    let j = choose|j: int| 0 <= j < entries.len() && (#[trigger] entries[j]).0 == name;
                    if j < i {
                        lemma_seq_lt_total(name, name);
                        assert(seq_lt(entries[j].0, name));
                    } else if j > i {
                        lemma_seq_lt_trans(name, entries[i as int].0, entries[j].0);
                        lemma_seq_lt_total(name, name);
                    }
                }
            }
            let mut mods: Vec<Module> = Vec::new();
            mods.push(module);
            let ghost new_list = mods@;
            proof {
                lemma_assoc_insert(entries, i as int, name, new_list);
                assert(new_list.drop_last() =~= Seq::<Module>::empty());
                lemma_sorted_insert(entries, i as int, name, new_list);
            }
            modules.insert(i, (ast_module.name.clone(), mods));
            proof {
                assert(registry_entries(modules@) =~= entries.insert(i as int, (name, new_list)));
                assert(assoc_map(registry_entries(modules@)).dom() =~= before.dom().insert(name));
            }
        }
    }

    /// Files `module` under `name`, replacing a module filed there before.
    fn insert_module(&mut self, name: String, module: Module)
        requires
            old(self).wf(),
        ensures
            final(self).wf(),
            final(self).modules_map() == old(self).modules_map().insert(name@, module),
    {
        let ghost entries = module_entries(self.modules@);
        let mut i: usize = 0;
        let mut found = false;
        while i < self.modules.len()
            invariant
                i <= self.modules@.len(),
                entries == module_entries(self.modules@),
                forall|j: int| 0 <= j < i ==> (#[trigger] entries[j]).0 != name@,
                found ==> i < self.modules@.len() && entries[i as int].0 == name@,
            ensures
                i <= self.modules@.len(),
                forall|j: int| 0 <= j < i ==> (#[trigger] entries[j]).0 != name@,
                found ==> i < self.modules@.len() && entries[i as int].0 == name@,
                !found ==> i == self.modules@.len(),
            decreases self.modules@.len() - i,
        {
            if str_eq(self.modules[i].0.as_str(), name.as_str()) {
                found = true;
                break;
            }
            i += 1;
        }
        let ghost n = name@;
        if found {
            proof {
                lemma_assoc_update(entries, i as int, module);
            }
            self.modules.set(i, (name, module));
            assert(module_entries(self.modules@) =~= entries.update(i as int, (n, module)));
        } else {
            proof {
                lemma_assoc_contains(entries, n);
                if assoc_map(entries).contains_key(n) {
                    let j = choose|j: int| 0 <= j < entries.len() && (#[trigger] entries[j]).0 == n;
                    assert(entries[j].0 != n);
                }
                lemma_assoc_push(entries, n, module);
            }
            self.modules.push((name, module));
            assert(module_entries(self.modules@) =~= entries.push((n, module)));
        }
    }

    /// Reports every name registered with more than one module, in
    /// increasing order of the names, as [`Resolver::register_module`] keeps
    /// them; when there is none, files each name's module in the resolver.
    pub fn process_module_conflicts(&mut self, modules: Vec<(String, Vec<Module>)>) -> (r: Result<(), Error>)
        requires
            old(self).wf(),
            sorted_keys(registry_entries(modules@)),
            forall|i: int| 0 <= i < modules@.len() ==> (#[trigger] modules@[i]).1@.len() >= 1,
        ensures
            final(self).wf(),
            match r {
                Ok(()) => {
                    &&& conflicts_of(registry_entries(modules@)).len() == 0
                    &&& final(self).modules_map() == insert_firsts(
                        old(self).modules_map(),
                        registry_entries(modules@),
                    )
                },
                Err(e) => {
                    &&& conflicts_of(registry_entries(modules@)).len() > 0
                    &&& *final(self) == *old(self)
                    &&& e matches Error::ResolveErr(errors)
                    &&& errors@.len() == 1
                    &&& errors@[0] matches ResolverError::ModuleConflict(conflicts)
                    &&& conflict_entries(conflicts@) == conflicts_of(registry_entries(modules@))
                },
            },
    {
        let ghost orig = registry_entries(modules@);
        let mut module_conflicts: Vec<(String, Vec<LocationId>)> = Vec::new();
        let mut i: usize = 0;
        proof {
            assert(orig.subrange(0, 0) =~= Seq::<(Seq<char>, Seq<Module>)>::empty());
            assert(conflict_entries(module_conflicts@) =~= Seq::empty());
        }
        while i < modules.len()
            invariant
                i <= modules@.len(),
                orig == registry_entries(modules@),
                conflict_entries(module_conflicts@) == conflicts_of(orig.subrange(0, i as int)),
            decreases modules@.len() - i,
        {
            let ghost pre = orig.subrange(0, i as int + 1);
            proof {
                assert(pre.drop_last() =~= orig.subrange(0, i as int));
                assert(pre.last() == orig[i as int]);
            }
            if modules[i].1.len() > 1 {
                let mut ids: Vec<LocationId> = Vec::new();
                let mut k: usize = 0;
                while k < modules[i].1.len()
                    invariant
                        i < modules@.len(),
                        k <= modules@[i as int].1@.len(),
                        ids@ == locations(modules@[i as int].1@).subrange(0, k as int),
                    decreases modules@[i as int].1@.len() - k,
                {
                    ids.push(modules[i].1[k].location_id);
                    k += 1;
                    assert(ids@ =~= locations(modules@[i as int].1@).subrange(0, k as int));
                }
                assert(ids@ =~= locations(modules@[i as int].1@));
                let ghost before = conflict_entries(module_conflicts@);
                module_conflicts.push((modules[i].0.clone(), ids));
                assert(conflict_entries(module_conflicts@) =~= before.push(
                    (orig[i as int].0, locations(orig[i as int].1)),
                ));
            }
            i += 1;
        }
        proof {
            assert(orig.subrange(0, i as int) =~= orig);
        }
        if module_conflicts.len() > 0 {
            let e = ResolverError::ModuleConflict(module_conflicts);
            let mut errors: Vec<ResolverError> = Vec::new();
            errors.push(e);
            return Err(Error::resolve_err(errors));
        }
        let mut modules = modules;
        let ghost old_map = self.modules_map();
        let ghost n = orig.len();
        let mut done: usize = 0;
        proof {
            assert(orig.subrange(0, 0) =~= Seq::<(Seq<char>, Seq<Module>)>::empty());
            assert(registry_entries(modules@) =~= orig.subrange(0, n as int));
        }
        while modules.len() > 0
            invariant
                done <= n,
                n == orig.len(),
                n <= usize::MAX,
                modules@.len() == n - done,
                registry_entries(modules@) == orig.subrange(done as int, n as int),
                forall|j: int| 0 <= j < modules@.len() ==> (#[trigger] modules@[j]).1@.len() >= 1,
                self.wf(),
                self.modules_map() == insert_firsts(old_map, orig.subrange(0, done as int)),
            decreases modules@.len(),
        {
            let ghost rest = modules@;
            let (name, mut mods) = modules.remove(0);
            proof {
                assert(rest[0].1@.len() >= 1);
                assert(registry_entries(rest)[0] == orig[done as int]);
                assert forall|j: int| 0 <= j < modules@.len() implies #[trigger] registry_entries(
                    modules@,
                )[j] == orig.subrange(done + 1, n as int)[j] by {
                    assert(modules@[j] == rest[j + 1]);
                    assert(registry_entries(rest)[j + 1] == orig[done + 1 + j]);
                }
                assert(registry_entries(modules@) =~= orig.subrange(done + 1, n as int));
                assert forall|j: int| 0 <= j < modules@.len() implies (#[trigger] modules@[j]).1@.len()
                    >= 1 by {
                    assert(modules@[j] == rest[j + 1]);
                }
                let pre = orig.subrange(0, done as int + 1);
                assert(pre.drop_last() =~= orig.subrange(0, done as int));
                assert(pre.last() == orig[done as int]);
            }
            let first = mods.remove(0);
            self.insert_module(name, first);
            done += 1;
        }
        proof {
            assert(orig.subrange(0, n as int) =~= orig);
        }
        Ok(())
    }

    /// The class that `class_name` stands for in the module; when the name is
    /// not imported, or stands for something else, a `NotAClassName` error is
    /// added and there is no class.
    pub fn lookup_class(
        &self,
        class_name: &String,
        location_id: LocationId,
        module: &Module,
        errors: &mut Vec<ResolverError>,
    ) -> (r: Option<IrClassId>)
        requires
            distinct_keys(import_entries(module.imported_items@)),
            module.imported().contains_key(class_name@) ==> module.imported()[class_name@].len() >= 1,
        ensures
            ({
                let found = module.imported().contains_key(class_name@);
                let first = module.imported()[class_name@][0].item;
                if found && first is Class {
                    &&& r == Some(first->Class_1)
                    &&& final(errors)@ == old(errors)@
                } else {
                    &&& r is None
                    &&& final(errors)@.len() == old(errors)@.len() + 1
                    &&& final(errors)@.drop_last() == old(errors)@
                    &&& final(errors)@.last() matches ResolverError::NotAClassName(n, l)
                    &&& n@ == class_name@
                    &&& l == location_id
                }
            }),
    {
        let ghost entries = import_entries(module.imported_items@);
        let mut i: usize = 0;
        let mut found = false;
        while i < module.imported_items.len()
            invariant
                i <= module.imported_items@.len(),
                entries == import_entries(module.imported_items@),
                forall|j: int| 0 <= j < i ==> (#[trigger] entries[j]).0 != class_name@,
                found ==> i < module.imported_items@.len() && entries[i as int].0 == class_name@,
            ensures
                i <= module.imported_items@.len(),
                forall|j: int| 0 <= j < i ==> (#[trigger] entries[j]).0 != class_name@,
                found ==> i < module.imported_items@.len() && entries[i as int].0 == class_name@,
                !found ==> i == module.imported_items@.len(),
            decreases module.imported_items@.len() - i,
        {
            if str_eq(module.imported_items[i].0.as_str(), class_name.as_str()) {
                found = true;
                break;
            }
            i += 1;
        }
        if found {
            proof {
                lemma_assoc_index(entries, i as int);
            }
            let items = &module.imported_items[i].1;
            let item = &items[0];
            match item.item {
                Item::Class(_, ir_class_id) => {
                    return Some(ir_class_id);
                },
                _ => {
                    let ghost before = errors@;
                    let err = ResolverError::NotAClassName(class_name.clone(), location_id);
                    errors.push(err);
                    assert(errors@.drop_last() =~= before);
                },
            }
        } else {
            proof {
                lemma_assoc_contains(entries, class_name@);
                if assoc_map(entries).contains_key(class_name@) {
                    let j = choose|j: int|
                        0 <= j < entries.len() && (#[trigger] entries[j]).0 == class_name@;
                    assert(entries[j].0 != class_name@);
                }
            }
            let ghost before = errors@;
            let err = ResolverError::NotAClassName(class_name.clone(), location_id);
            errors.push(err);
            assert(errors@.drop_last() =~= before);
        }
        None
    }
}

/// There is no module conflict exactly when no name has more than one module.
pub proof fn lemma_no_conflicts(entries: Seq<(Seq<char>, Seq<Module>)>)
    ensures
        conflicts_of(entries).len() == 0 <==> forall|i: int|
            0 <= i < entries.len() ==> (#[trigger] entries[i]).1.len() <= 1,
    decreases entries.len(),
{
    if entries.len() > 0 {
        let pre = entries.drop_last();
        lemma_no_conflicts(pre);
        if forall|i: int| 0 <= i < entries.len() ==> (#[trigger] entries[i]).1.len() <= 1 {
            assert forall|i: int| 0 <= i < pre.len() implies (#[trigger] pre[i]).1.len() <= 1 by {
                assert(pre[i] == entries[i]);
            }
        }
        if conflicts_of(entries).len() == 0 {
            assert forall|i: int| 0 <= i < entries.len() implies (#[trigger] entries[i]).1.len()
                <= 1 by {
                if i < entries.len() - 1 {
                    assert(pre[i] == entries[i]);
                }
            }
        }
    }
}

/// Filing each name's first module in order gives the old modules, overridden
/// by the first module of every registered name.
pub proof fn lemma_insert_firsts(m: Map<Seq<char>, Module>, entries: Seq<(Seq<char>, Seq<Module>)>)
    ensures
        insert_firsts(m, entries) == m.union_prefer_right(
            Map::new(
                |n: Seq<char>| assoc_map(entries).contains_key(n),
                |n: Seq<char>| assoc_map(entries)[n][0],
            ),
        ),
    decreases entries.len(),
{
    if entries.len() == 0 {
        assert(insert_firsts(m, entries) =~= m.union_prefer_right(
            Map::new(
                |n: Seq<char>| assoc_map(entries).contains_key(n),
                |n: Seq<char>| assoc_map(entries)[n][0],
            ),
        ));
    } else {
        lemma_insert_firsts(m, entries.drop_last());
        assert(insert_firsts(m, entries) =~= m.union_prefer_right(
            Map::new(
                |n: Seq<char>| assoc_map(entries).contains_key(n),
                |n: Seq<char>| assoc_map(entries)[n][0],
            ),
        ));
    }
}

} // verus!
