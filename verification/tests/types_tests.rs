use siko::ir::class::ClassId;
use siko::ir::class::InstanceId;
use siko::ir::data::TypeDefId;
use siko::ir::instance_resolution_cache::InstanceResolutionCache;
use siko::ir::instance_resolution_cache::ResolutionResult;
use siko::ir::type_var_generator::TypeVarGenerator;
use siko::ir::types::same_classes;
use siko::ir::types::BaseType;
use siko::ir::types::Type;
use std::collections::BTreeMap;

fn var(i: usize) -> Type {
    Type::Var(i, vec![])
}

fn named(name: &str, id: usize, items: Vec<Type>) -> Type {
    Type::Named(name.to_string(), TypeDefId { id: id }, items)
}

fn func(from: Type, to: Type) -> Type {
    Type::Function(Box::new(from), Box::new(to))
}

fn show(t: &Type) -> String {
    format!("{:?}", t)
}

#[test]
fn contains_finds_variables_and_fixed_args() {
    let t = func(named("List", 1, vec![var(3)]), Type::FixedTypeArg("a".to_string(), 5, vec![]));
    assert!(t.contains(3));
    assert!(t.contains(5));
    assert!(!t.contains(4));
    assert!(!Type::Tuple(vec![]).contains(0));
}

#[test]
fn remove_fixed_types_turns_fixed_args_into_variables() {
    let t = Type::Tuple(vec![
        Type::FixedTypeArg("a".to_string(), 2, vec![ClassId { id: 7 }]),
        var(1),
    ]);
    let r = t.remove_fixed_types();
    assert_eq!(show(&r), show(&Type::Tuple(vec![Type::Var(2, vec![ClassId { id: 7 }]), var(1)])));
    assert_eq!(show(&r.remove_fixed_types()), show(&r));
}

#[test]
fn arg_count_args_and_result_type() {
    let int_ty = named("Int", 0, vec![]);
    let string = named("String", 1, vec![]);
    let t = func(int_ty.clone_type(), func(string.clone_type(), int_ty.clone_type()));
    assert_eq!(t.get_arg_count(), 2);
    let mut args = Vec::new();
    t.get_args(&mut args);
    assert_eq!(args.len(), 2);
    assert_eq!(show(&args[0]), show(&int_ty));
    assert_eq!(show(&args[1]), show(&string));
    assert_eq!(show(&t.get_result_type(2)), show(&int_ty));
    assert_eq!(show(&t.get_result_type(1)), show(&func(string.clone_type(), int_ty.clone_type())));
    assert_eq!(show(&t.get_result_type(0)), show(&t));
    assert_eq!(int_ty.get_arg_count(), 0);
}

#[test]
fn base_types() {
    assert_eq!(Type::Tuple(vec![]).get_base_type(), BaseType::Tuple);
    assert_eq!(named("X", 4, vec![]).get_base_type(), BaseType::Named(TypeDefId { id: 4 }));
    assert_eq!(func(var(0), var(1)).get_base_type(), BaseType::Function);
    assert_eq!(var(0).get_base_type(), BaseType::Generic);
}

#[test]
fn add_constraints_appends_classes() {
    let t = Type::Var(3, vec![ClassId { id: 1 }]);
    let r = t.add_constraints(&vec![ClassId { id: 2 }, ClassId { id: 1 }]);
    assert_eq!(
        show(&r),
        show(&Type::Var(3, vec![ClassId { id: 1 }, ClassId { id: 2 }, ClassId { id: 1 }]))
    );
}

#[test]
fn duplicate_renames_each_variable_once() {
    let t = func(var(0), func(var(1), var(0)));
    let mut map = BTreeMap::new();
    let mut gen = TypeVarGenerator::new(10);
    let d = t.duplicate(&mut map, &mut gen);
    assert_eq!(show(&d), show(&func(var(10), func(var(11), var(10)))));
    assert_eq!(map.get(&0), Some(&10));
    assert_eq!(map.get(&1), Some(&11));
    assert_eq!(gen.next, 12);
    let again = t.duplicate(&mut map, &mut gen);
    assert_eq!(show(&again), show(&d));
    assert_eq!(gen.next, 12);
}

#[test]
fn equality_of_types() {
    let a = func(named("Int", 0, vec![]), var(2));
    let b = func(named("Int", 0, vec![]), var(2));
    let c = func(named("Int", 0, vec![]), var(3));
    assert!(a.equals(&b));
    assert!(!a.equals(&c));
    assert!(Type::equals_all_types(&vec![a.clone_type()], &vec![b.clone_type()]));
    assert!(!Type::equals_all_types(&vec![a.clone_type()], &vec![]));
}

#[test]
fn class_lists_compare_elementwise() {
    assert!(same_classes(&vec![ClassId { id: 1 }], &vec![ClassId { id: 1 }]));
    assert!(!same_classes(&vec![ClassId { id: 1 }], &vec![ClassId { id: 2 }]));
    assert!(!same_classes(&vec![], &vec![ClassId { id: 2 }]));
}

#[test]
fn type_var_generator_counts_up() {
    let mut gen = TypeVarGenerator::new(3);
    assert_eq!(gen.get_new_index(), 3);
    assert_eq!(gen.get_new_index(), 4);
    assert_eq!(gen.next, 5);
}

#[test]
fn instance_cache_reads_back_what_was_filed() {
    let mut cache = InstanceResolutionCache::new();
    let class = ClassId { id: 1 };
    cache.add(class, named("Int", 0, vec![]), ResolutionResult::UserDefined(InstanceId { id: 4 }));
    cache.add(class, named("Str", 1, vec![]), ResolutionResult::AutoDerived);
    assert_eq!(
        *cache.get(class, named("Int", 0, vec![])),
        ResolutionResult::UserDefined(InstanceId { id: 4 })
    );
    assert_eq!(*cache.get(class, named("Str", 1, vec![])), ResolutionResult::AutoDerived);
    cache.add(class, named("Int", 0, vec![]), ResolutionResult::AutoDerived);
    assert_eq!(*cache.get(class, named("Int", 0, vec![])), ResolutionResult::AutoDerived);
}

#[test]
fn arguments_and_result_rebuild_the_type() {
    let a = named("Int", 1, vec![]);
    let b = var(2);
    let c = named("Bool", 3, vec![]);
    let t = func(a.clone_type(), func(b.clone_type(), c.clone_type()));
    let mut args = Vec::new();
    t.get_args(&mut args);
    assert_eq!(args.len(), 2);
    let rebuilt_one = func(args[0].clone_type(), t.get_result_type(1));
    assert_eq!(show(&rebuilt_one), show(&t));
    let rebuilt_two = func(args[0].clone_type(), func(args[1].clone_type(), t.get_result_type(2)));
    assert_eq!(show(&rebuilt_two), show(&t));
    assert_eq!(show(&t.get_result_type(5)), show(&t.get_result_type(2)));
    assert_eq!(show(&c.get_result_type(3)), show(&c));
}
