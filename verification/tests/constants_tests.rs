use siko::config::Config;
use siko::constants::get_qualified_list_type_name;
use siko::constants::BuiltinOperator;
use siko::constants::LIST_MODULE_NAME;
use siko::constants::MAIN_FUNCTION;
use siko::constants::MAIN_MODULE;

#[test]
fn operator_function_names() {
    assert_eq!(BuiltinOperator::Add.get_function_name(), "Std.Ops.opAdd");
    assert_eq!(BuiltinOperator::Sub.get_function_name(), "Std.Ops.opSub");
    assert_eq!(BuiltinOperator::Mul.get_function_name(), "Std.Ops.opMul");
    assert_eq!(BuiltinOperator::Div.get_function_name(), "Std.Ops.opDiv");
    assert_eq!(BuiltinOperator::Equals.get_function_name(), "Std.Ops.opEq");
    assert_eq!(BuiltinOperator::NotEquals.get_function_name(), "Std.Ops.opNotEq");
    assert_eq!(BuiltinOperator::LessThan.get_function_name(), "Std.Ops.opLessThan");
    assert_eq!(BuiltinOperator::LessOrEqualThan.get_function_name(), "Std.Ops.opLessEqual");
    assert_eq!(BuiltinOperator::GreaterThan.get_function_name(), "Std.Ops.opGreaterThan");
    assert_eq!(
        BuiltinOperator::GreaterOrEqualThan.get_function_name(),
        "Std.Ops.opGreaterEqual"
    );
    assert_eq!(BuiltinOperator::And.get_function_name(), "Std.Ops.opAnd");
    assert_eq!(BuiltinOperator::Or.get_function_name(), "Std.Ops.opOr");
    assert_eq!(BuiltinOperator::Not.get_function_name(), "Std.Ops.opNot");
}

#[test]
fn qualified_list_type_name() {
    assert_eq!(get_qualified_list_type_name(), "List.List");
    assert_eq!(LIST_MODULE_NAME, "List");
    assert_eq!(MAIN_MODULE, "Main");
    assert_eq!(MAIN_FUNCTION, "main");
}

#[test]
fn config_starts_off() {
    let config = Config::new();
    assert!(!config.verbose);
    assert!(!config.visualize);
}
