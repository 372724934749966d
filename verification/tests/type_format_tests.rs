use siko::ir::class::ClassId;
use siko::ir::data::TypeDefId;
use siko::ir::type_format::join_strings;
use siko::ir::type_format::ResolverContext;
use siko::ir::types::Type;
use siko::util::Collector;

fn named(name: &str, id: usize, items: Vec<Type>) -> Type {
    Type::Named(name.to_string(), TypeDefId { id: id }, items)
}

fn func(from: Type, to: Type) -> Type {
    Type::Function(Box::new(from), Box::new(to))
}

fn class_names() -> Vec<(String, ClassId)> {
    vec![
        (String::from("Show"), ClassId { id: 1 }),
        (String::from("Eq"), ClassId { id: 2 }),
    ]
}

const LIST: TypeDefId = TypeDefId { id: 5 };

#[test]
fn display_of_types() {
    let t = Type::Tuple(vec![
        named("Int", 0, vec![]),
        Type::Var(3, vec![ClassId { id: 1 }, ClassId { id: 2 }]),
    ]);
    assert_eq!(t.to_string(), "(Int, $3/#1, #2)");
    assert_eq!(named("List", 1, vec![Type::Var(0, vec![])]).to_string(), "List ($0)");
    assert_eq!(
        named("Map", 2, vec![Type::Var(0, vec![]), Type::Var(1, vec![])]).to_string(),
        "Map ($0 $1)"
    );
    assert_eq!(func(Type::Var(0, vec![]), Type::Var(1, vec![])).to_string(), "$0 -> $1");
    assert_eq!(Type::FixedTypeArg("a".to_string(), 2, vec![]).to_string(), "f$2");
    assert_eq!(
        Type::FixedTypeArg("a".to_string(), 12, vec![ClassId { id: 4 }]).to_string(),
        "f$12/#4"
    );
    assert_eq!(Type::Tuple(vec![]).to_string(), "()");
}

#[test]
fn resolved_string_names_variables_in_order() {
    let t = func(
        Type::Var(3, vec![ClassId { id: 1 }]),
        named("List", 5, vec![Type::Var(1, vec![ClassId { id: 2 }, ClassId { id: 1 }])]),
    );
    assert_eq!(
        t.get_resolved_type_string(&class_names(), LIST),
        "(Show t0, Eq t0, Show t1) => t1 -> [t0]"
    );
}

#[test]
fn resolved_string_keeps_fixed_names() {
    let t = Type::FixedTypeArg("a".to_string(), 7, vec![ClassId { id: 2 }, ClassId { id: 2 }]);
    assert_eq!(t.get_resolved_type_string(&class_names(), LIST), "(Eq a) => a");
}

#[test]
fn resolved_string_parenthesizes_arguments() {
    let maybe_int = || named("Maybe", 9, vec![named("Int", 0, vec![])]);
    assert_eq!(maybe_int().get_resolved_type_string(&class_names(), LIST), "Maybe Int");
    assert_eq!(
        func(maybe_int(), maybe_int()).get_resolved_type_string(&class_names(), LIST),
        "(Maybe Int) -> (Maybe Int)"
    );
    let nested = func(func(named("Int", 0, vec![]), named("Int", 0, vec![])), named("Int", 0, vec![]));
    assert_eq!(nested.get_resolved_type_string(&class_names(), LIST), "(Int -> Int) -> Int");
    let tuple = Type::Tuple(vec![maybe_int(), func(named("A", 3, vec![]), named("B", 4, vec![]))]);
    assert_eq!(tuple.get_resolved_type_string(&class_names(), LIST), "(Maybe Int, A -> B)");
}

#[test]
fn context_keeps_names_across_types() {
    let mut ctx = ResolverContext::new(&class_names(), LIST);
    let a = Type::Var(4, vec![]);
    let b = Type::Tuple(vec![Type::Var(2, vec![]), Type::Var(4, vec![])]);
    assert_eq!(a.get_resolved_type_string_with_context(&mut ctx), "t0");
    assert_eq!(b.get_resolved_type_string_with_context(&mut ctx), "(t1, t0)");
    assert_eq!(ctx.get_type_arg_name(4), "t0");
    assert_eq!(ctx.get_type_arg_name(2), "t1");
}

#[test]
fn context_names() {
    let mut ctx = ResolverContext::new(&class_names(), LIST);
    ctx.add_named_type_arg(1, String::from("a"));
    ctx.add_type_arg(1);
    ctx.add_type_arg(3);
    ctx.add_type_arg(3);
    ctx.add_named_type_arg(3, String::from("b"));
    assert_eq!(ctx.get_type_arg_name(1), "a");
    assert_eq!(ctx.get_type_arg_name(3), "t0");
    ctx.add_type_arg(8);
    assert_eq!(ctx.get_type_arg_name(8), "t1");
    assert_eq!(ctx.get_list_type_id(), LIST);
    assert_eq!(ctx.get_class_name(&ClassId { id: 2 }), "Eq");
}

#[test]
fn later_class_name_wins() {
    let names = vec![
        (String::from("Old"), ClassId { id: 1 }),
        (String::from("New"), ClassId { id: 1 }),
    ];
    let ctx = ResolverContext::new(&names, LIST);
    assert_eq!(ctx.get_class_name(&ClassId { id: 1 }), "New");
}

#[test]
fn collector_keeps_keys_and_classes_sorted() {
    let mut c = Collector::new();
    c.add(5, ClassId { id: 3 });
    c.add_empty(2);
    c.add(5, ClassId { id: 1 });
    c.add(5, ClassId { id: 3 });
    c.add_empty(5);
    c.add(9, ClassId { id: 0 });
    assert_eq!(
        c.items,
        vec![
            (2, vec![]),
            (5, vec![ClassId { id: 1 }, ClassId { id: 3 }]),
            (9, vec![ClassId { id: 0 }]),
        ]
    );
}

#[test]
fn joining_strings() {
    let v = vec![String::from("a"), String::from("b"), String::from("c")];
    assert_eq!(join_strings(&v, ", "), "a, b, c");
    assert_eq!(join_strings(&vec![String::from("x")], ", "), "x");
    assert_eq!(join_strings(&vec![], ", "), "");
}

use siko::ir::types_old::ConcreteType;

fn concrete(name: &str, id: usize, items: Vec<ConcreteType>) -> ConcreteType {
    ConcreteType::Named(name.to_string(), TypeDefId { id: id }, items)
}

#[test]
fn display_of_concrete_types() {
    let list = concrete("List", 1, vec![concrete("Int", 0, vec![])]);
    assert_eq!(list.to_string(), "List Int");
    let map = concrete("Map", 2, vec![concrete("Int", 0, vec![]), concrete("String", 3, vec![])]);
    assert_eq!(map.to_string(), "Map Int String");
    let tuple = ConcreteType::Tuple(vec![concrete("Int", 0, vec![]), list]);
    assert_eq!(tuple.to_string(), "(Int, List Int)");
    let f = ConcreteType::Function(Box::new(concrete("Int", 0, vec![])), Box::new(ConcreteType::Tuple(vec![])));
    assert_eq!(f.to_string(), "Int -> ()");
}

use siko::flow_graph::cfg::BlockId;
use siko::flow_graph::dfg::ValueId;
use siko::ir::class::ClassMemberId;
use siko::ir::types_old::TypeId;
use siko::mir::expr::ExprId as MirExprId;
use siko::mir::function::FunctionId as MirFunctionId;

#[test]
fn display_of_identifiers() {
    assert_eq!(ClassId { id: 3 }.to_string(), "#3");
    assert_eq!(ClassMemberId { id: 10 }.to_string(), "#10");
    assert_eq!(TypeId { id: 7 }.to_string(), "TypeId(7)");
    assert_eq!(MirFunctionId { id: 0 }.to_string(), "func#0");
    assert_eq!(MirExprId { id: 42 }.to_string(), "#42");
    assert_eq!(BlockId { id: 5 }.to_string(), "#5");
    assert_eq!(ValueId { id: 9 }.to_string(), "#9");
}
