use siko::interpreter::environment::Environment;
use siko::ir::expr::FunctionArgumentRef;
use siko::ir::function::FunctionId;
use siko::ir::pattern::PatternId;

#[test]
fn captured_arguments_come_first() {
    let f = FunctionId { id: 4 };
    let env: Environment<String> = Environment::new(
        f,
        vec![String::from("captured"), String::from("first"), String::from("second")],
        1,
    );
    let captured = FunctionArgumentRef { captured: true, id: f, index: 0 };
    let first = FunctionArgumentRef { captured: false, id: f, index: 0 };
    let second = FunctionArgumentRef { captured: false, id: f, index: 1 };
    assert_eq!(env.get_arg(&captured), "captured");
    assert_eq!(env.get_arg(&first), "first");
    assert_eq!(env.get_arg(&second), "second");
    assert_eq!(env.get_arg_by_index(2), "second");
}

#[test]
fn variables_of_nested_blocks() {
    let f = FunctionId { id: 1 };
    let mut outer: Environment<i64> = Environment::new(f, vec![7], 0);
    outer.add(PatternId { id: 0 }, 1);
    outer.add(PatternId { id: 1 }, 2);
    let mut inner = Environment::block_child(&outer);
    inner.add(PatternId { id: 1 }, 3);
    assert_eq!(inner.get_value(&PatternId { id: 0 }), 1);
    assert_eq!(inner.get_value(&PatternId { id: 1 }), 3);
    assert_eq!(inner.get_arg(&FunctionArgumentRef { captured: false, id: f, index: 0 }), 7);
    assert_eq!(outer.get_value(&PatternId { id: 1 }), 2);
}

#[test]
fn rebinding_replaces_the_value() {
    let mut env: Environment<i64> = Environment::new(FunctionId { id: 0 }, vec![], 0);
    env.add(PatternId { id: 5 }, 10);
    env.add(PatternId { id: 5 }, 11);
    assert_eq!(env.get_value(&PatternId { id: 5 }), 11);
}
