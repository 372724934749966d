use siko::interpreter::extern_call::call_extern;
use siko::interpreter::extern_call::ExternAction;
use siko::interpreter::extern_call::ExternValue;
use siko::interpreter::extern_call::list_show_text;
use siko::ir::expr::Expr;
use siko::ir::program::Program;
use siko::location::LocationId;

const PRELUDE: &str = "Prelude";

fn call(name: &str, instance: &str, args: Vec<ExternValue>) -> ExternAction {
    call_extern(PRELUDE, PRELUDE, name, &Some(String::from(instance)), &args, &Program::new(), None)
}

fn plain(module: &str, name: &str, args: &Vec<ExternValue>) -> ExternAction {
    call_extern(PRELUDE, module, name, &None, args, &Program::new(), None)
}

#[test]
fn integer_arithmetic() {
    let a = vec![ExternValue::Int(-7), ExternValue::Int(2)];
    assert!(matches!(call("opAdd", "IntAdd", a.clone()), ExternAction::Return(ExternValue::Int(-5))));
    assert!(matches!(call("opSub", "IntSub", a.clone()), ExternAction::Return(ExternValue::Int(-9))));
    assert!(matches!(call("opMul", "IntMul", a.clone()), ExternAction::Return(ExternValue::Int(-14))));
    assert!(matches!(call("opDiv", "IntDiv", a), ExternAction::Return(ExternValue::Int(-3))));
}

#[test]
fn string_concatenation_and_equality() {
    let a = vec![ExternValue::String(String::from("ab")), ExternValue::String(String::from("cd"))];
    match call("opAdd", "StringAdd", a.clone()) {
        ExternAction::Return(ExternValue::String(s)) => assert_eq!(s, "abcd"),
        _ => panic!("not a string"),
    }
    assert!(matches!(call("opEq", "StringEq", a), ExternAction::Return(ExternValue::Bool(false))));
    let same = vec![ExternValue::String(String::from("x")), ExternValue::String(String::from("x"))];
    assert!(matches!(call("opEq", "StringEq", same), ExternAction::Return(ExternValue::Bool(true))));
}

#[test]
fn comparisons() {
    let ints = vec![ExternValue::Int(1), ExternValue::Int(2)];
    let bools = vec![ExternValue::Bool(true), ExternValue::Bool(false)];
    assert!(matches!(call("opEq", "IntEq", ints.clone()), ExternAction::Return(ExternValue::Bool(false))));
    assert!(matches!(call("opLessThan", "IntLessThan", ints.clone()), ExternAction::Return(ExternValue::Bool(true))));
    assert!(matches!(
        plain(PRELUDE, "op_lessthan", &ints),
        ExternAction::Return(ExternValue::Bool(true))
    ));
    assert!(matches!(call("opEq", "BoolEq", bools.clone()), ExternAction::Return(ExternValue::Bool(false))));
    assert!(matches!(call("opNotEq", "BoolEq", bools), ExternAction::Return(ExternValue::Bool(true))));
}

#[test]
fn assertion_and_printing() {
    let ok = vec![ExternValue::Bool(true)];
    let bad = vec![ExternValue::Bool(false)];
    assert!(matches!(plain("Std.Util", "assert", &ok), ExternAction::Return(ExternValue::Unit)));
    let mut p = Program::new();
    let e = p.add_expr(Expr::IntegerLiteral(1), LocationId { id: 42 });
    match call_extern(PRELUDE, "Std.Util", "assert", &None, &bad, &p, Some(e)) {
        ExternAction::AssertionFailed(msg, l) => {
            assert_eq!(msg, "Assertion failed");
            assert_eq!(l, LocationId { id: 42 });
        },
        _ => panic!("not a failed assertion"),
    }
    assert!(matches!(plain(PRELUDE, "print", &ok), ExternAction::Print(false)));
    assert!(matches!(plain(PRELUDE, "println", &ok), ExternAction::Print(true)));
}

#[test]
fn showing_integers_and_lists() {
    for (i, text) in [(0i64, "0"), (42, "42"), (-7, "-7"), (i64::MIN, "-9223372036854775808")] {
        match call("show", "IntShow", vec![ExternValue::Int(i)]) {
            ExternAction::Return(ExternValue::String(s)) => assert_eq!(s, text),
            _ => panic!("not a string"),
        }
    }
    assert!(matches!(call("show", "ListShow", vec![]), ExternAction::ShowList));
    assert_eq!(list_show_text(&vec![String::from("1"), String::from("2")]), "(1, 2)");
    assert_eq!(list_show_text(&vec![]), "()");
}
