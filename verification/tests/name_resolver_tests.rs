use siko::ir::class::ClassId;
use siko::name_resolver::type_arg_constraint_collector::TypeArgConstraintCollector;
use siko::name_resolver::type_arg_resolver::TypeArgResolver;

fn ids(v: &[usize]) -> Vec<ClassId> {
    v.iter().map(|id| ClassId { id: *id }).collect()
}

#[test]
fn explicit_args_get_consecutive_positions() {
    let mut r = TypeArgResolver::new();
    assert_eq!(r.add_explicit(String::from("a"), ids(&[1])), 0);
    assert_eq!(r.add_explicit(String::from("b"), ids(&[])), 1);
    let a = r.resolve_arg(&String::from("a")).unwrap();
    assert_eq!(a.index, 0);
    assert_eq!(a.constraints, ids(&[1]));
    let b = r.resolve_arg(&String::from("b")).unwrap();
    assert_eq!(b.index, 1);
    assert!(b.constraints.is_empty());
    assert!(r.resolve_arg(&String::from("c")).is_none());
    assert!(r.contains("a"));
    assert!(!r.contains("c"));
}

#[test]
fn redeclared_arg_takes_the_new_entry() {
    let mut r = TypeArgResolver::new();
    r.add_explicit(String::from("a"), ids(&[1]));
    assert_eq!(r.add_explicit(String::from("a"), ids(&[2])), 1);
    let a = r.resolve_arg(&String::from("a")).unwrap();
    assert_eq!(a.index, 1);
    assert_eq!(a.constraints, ids(&[2]));
}

#[test]
fn constraints_are_sorted_and_deduplicated() {
    let mut r = TypeArgResolver::new();
    r.add_explicit(String::from("t"), ids(&[5, 2, 5]));
    assert!(r.add_constraint(&String::from("t"), ClassId { id: 3 }));
    assert_eq!(r.resolve_arg(&String::from("t")).unwrap().constraints, ids(&[2, 3, 5]));
    assert_eq!(r.resolve_arg(&String::from("t")).unwrap().index, 0);
}

#[test]
fn adding_a_present_constraint_changes_nothing() {
    let mut r = TypeArgResolver::new();
    r.add_explicit(String::from("t"), ids(&[4, 1]));
    r.add_constraint(&String::from("t"), ClassId { id: 4 });
    let once = r.resolve_arg(&String::from("t")).unwrap().constraints;
    r.add_constraint(&String::from("t"), ClassId { id: 4 });
    let twice = r.resolve_arg(&String::from("t")).unwrap().constraints;
    assert_eq!(once, ids(&[1, 4]));
    assert_eq!(once, twice);
}

#[test]
fn constraint_on_unknown_arg_is_refused() {
    let mut r = TypeArgResolver::new();
    r.add_explicit(String::from("t"), ids(&[1]));
    assert!(!r.add_constraint(&String::from("u"), ClassId { id: 2 }));
    assert!(!r.contains("u"));
    assert_eq!(r.resolve_arg(&String::from("t")).unwrap().constraints, ids(&[1]));
}

#[test]
fn collector_groups_constraints_by_name_in_order() {
    let mut c = TypeArgConstraintCollector::new();
    c.add_constraint(String::from("b"), ClassId { id: 2 });
    c.add_constraint(String::from("a"), ClassId { id: 1 });
    c.add_constraint(String::from("a"), ClassId { id: 3 });
    c.add_empty(String::from("c"));
    let all = c.get_all_constraints();
    assert_eq!(
        all.items,
        vec![
            (String::from("a"), ids(&[1, 3])),
            (String::from("b"), ids(&[2])),
            (String::from("c"), ids(&[])),
        ]
    );
}

#[test]
fn collector_add_empty_drops_earlier_constraints() {
    let mut c = TypeArgConstraintCollector::new();
    c.add_constraint(String::from("a"), ClassId { id: 1 });
    c.add_empty(String::from("a"));
    c.add_constraint(String::from("a"), ClassId { id: 7 });
    let all = c.get_all_constraints();
    assert_eq!(all.items, vec![(String::from("a"), ids(&[7]))]);
}

use siko::ir::class::ClassId as IrClassId;
use siko::ir::data::TypeDefId;
use siko::location::LocationId;
use siko::name_resolver::error::Error;
use siko::name_resolver::error::ResolverError;
use siko::name_resolver::import::ImportedItemInfo;
use siko::name_resolver::item::Item;
use siko::name_resolver::module::Module;
use siko::name_resolver::resolver::Resolver;
use siko::syntax::class::ClassId as AstClassId;
use siko::syntax::data::AdtId;
use siko::syntax::data::VariantId;
use siko::syntax::module::Module as AstModule;
use siko::syntax::module::ModuleId;

fn imported(item: Item) -> ImportedItemInfo {
    ImportedItemInfo { item: item, source_module: String::from("M") }
}

fn adt() -> Item {
    Item::Adt(AdtId { id: 0 }, TypeDefId { id: 0 })
}

fn variant() -> Item {
    Item::Variant(AdtId { id: 0 }, VariantId { id: 0 }, TypeDefId { id: 0 }, 0)
}

fn class() -> Item {
    Item::Class(AstClassId { id: 0 }, IrClassId { id: 9 })
}

#[test]
fn ambiguity_of_imports() {
    assert_eq!(ImportedItemInfo::check_ambiguity(&[imported(adt()), imported(variant())]), (0, 1, false));
    assert_eq!(ImportedItemInfo::check_ambiguity(&[imported(variant()), imported(adt())]), (1, 0, false));
    assert_eq!(ImportedItemInfo::check_ambiguity(&[imported(adt()), imported(adt())]), (0, 0, true));
    assert_eq!(ImportedItemInfo::check_ambiguity(&[imported(adt())]), (0, 0, true));
    assert_eq!(ImportedItemInfo::check_ambiguity(&[]), (0, 0, true));
}

#[test]
fn module_conflicts_are_reported() {
    let mut resolver = Resolver::new();
    let mut modules = Vec::new();
    let a1 = AstModule::new(String::from("A"), ModuleId { id: 0 }, LocationId { id: 10 });
    let b = AstModule::new(String::from("B"), ModuleId { id: 1 }, LocationId { id: 11 });
    let a2 = AstModule::new(String::from("A"), ModuleId { id: 2 }, LocationId { id: 12 });
    resolver.register_module(&a1, &mut modules);
    resolver.register_module(&b, &mut modules);
    resolver.register_module(&a2, &mut modules);
    assert_eq!(modules.len(), 2);
    match resolver.process_module_conflicts(modules) {
        Err(Error::ResolveErr(errors)) => {
            assert_eq!(errors.len(), 1);
            match &errors[0] {
                ResolverError::ModuleConflict(conflicts) => {
                    assert_eq!(conflicts.len(), 1);
                    assert_eq!(conflicts[0].0, "A");
                    assert_eq!(conflicts[0].1, vec![LocationId { id: 10 }, LocationId { id: 12 }]);
                }
                other => panic!("unexpected error {:?}", other),
            }
        }
        Ok(()) => panic!("the conflict was not found"),
    }
}

#[test]
fn distinct_modules_are_accepted() {
    let mut resolver = Resolver::new();
    let mut modules = Vec::new();
    let a = AstModule::new(String::from("A"), ModuleId { id: 0 }, LocationId { id: 10 });
    let b = AstModule::new(String::from("B"), ModuleId { id: 1 }, LocationId { id: 11 });
    resolver.register_module(&a, &mut modules);
    resolver.register_module(&b, &mut modules);
    assert!(resolver.process_module_conflicts(modules).is_ok());
}

#[test]
fn class_lookup() {
    let resolver = Resolver::new();
    let mut module = Module::new(ModuleId { id: 0 }, String::from("Main"), LocationId { id: 0 });
    module.imported_items.push((String::from("Show"), vec![imported(class())]));
    module.imported_items.push((String::from("Maybe"), vec![imported(adt())]));
    let mut errors = Vec::new();
    let found = resolver.lookup_class(&String::from("Show"), LocationId { id: 5 }, &module, &mut errors);
    assert_eq!(found, Some(IrClassId { id: 9 }));
    assert!(errors.is_empty());
    let not_class = resolver.lookup_class(&String::from("Maybe"), LocationId { id: 6 }, &module, &mut errors);
    assert_eq!(not_class, None);
    let unknown = resolver.lookup_class(&String::from("Eq"), LocationId { id: 7 }, &module, &mut errors);
    assert_eq!(unknown, None);
    assert_eq!(errors.len(), 2);
    match &errors[1] {
        ResolverError::NotAClassName(name, location) => {
            assert_eq!(name, "Eq");
            assert_eq!(*location, LocationId { id: 7 });
        }
        other => panic!("unexpected error {:?}", other),
    }
}

#[test]
fn module_conflicts_come_in_name_order() {
    let mut resolver = Resolver::new();
    let mut modules = Vec::new();
    let z1 = AstModule::new(String::from("Z"), ModuleId { id: 0 }, LocationId { id: 1 });
    let a1 = AstModule::new(String::from("A"), ModuleId { id: 1 }, LocationId { id: 2 });
    let z2 = AstModule::new(String::from("Z"), ModuleId { id: 2 }, LocationId { id: 3 });
    let a2 = AstModule::new(String::from("A"), ModuleId { id: 3 }, LocationId { id: 4 });
    resolver.register_module(&z1, &mut modules);
    resolver.register_module(&a1, &mut modules);
    resolver.register_module(&z2, &mut modules);
    resolver.register_module(&a2, &mut modules);
    assert_eq!(modules[0].0, "A");
    assert_eq!(modules[1].0, "Z");
    match resolver.process_module_conflicts(modules) {
        Err(Error::ResolveErr(errors)) => match &errors[0] {
            ResolverError::ModuleConflict(conflicts) => {
                assert_eq!(conflicts.len(), 2);
                assert_eq!(conflicts[0].0, "A");
                assert_eq!(conflicts[0].1, vec![LocationId { id: 2 }, LocationId { id: 4 }]);
                assert_eq!(conflicts[1].0, "Z");
                assert_eq!(conflicts[1].1, vec![LocationId { id: 1 }, LocationId { id: 3 }]);
            }
            other => panic!("unexpected error {:?}", other),
        },
        Ok(()) => panic!("the conflicts were not found"),
    }
}
