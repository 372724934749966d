use siko::transpiler::builtins::generate_builtin;
use siko::transpiler::builtins::generate_cmp_builtin_body;
use siko::transpiler::builtins::generate_list_builtins;
use siko::transpiler::builtins::generate_map_builtins;
use siko::transpiler::builtins::generate_num_builtins;
use siko::transpiler::builtins::generate_opadd_builtin_body;
use siko::transpiler::builtins::generate_opdiv_builtin_body;
use siko::transpiler::builtins::generate_opeq_builtin_body;
use siko::transpiler::builtins::generate_opmul_builtin_body;
use siko::transpiler::builtins::generate_opsub_builtin_body;
use siko::transpiler::builtins::generate_partial_cmp_builtin_body;
use siko::transpiler::builtins::generate_show_builtin_body;
use siko::transpiler::builtins::generate_string_builtins;
use siko::transpiler::util::arg_name;
use siko::transpiler::util::get_module_name;
use siko::transpiler::util::Indent;

fn indent_at(level: usize) -> Indent {
    let mut indent = Indent::new();
    for _ in 0..level {
        indent.inc();
    }
    indent
}

#[test]
fn indent_starts_empty_and_grows_by_four() {
    let mut indent = Indent::new();
    assert_eq!(indent.to_string(), "");
    indent.inc();
    assert_eq!(indent.to_string(), "    ");
    indent.inc();
    assert_eq!(indent.to_string(), "        ");
}

#[test]
fn indent_dec_undoes_inc() {
    let mut indent = indent_at(1);
    indent.inc();
    indent.dec();
    assert_eq!(indent.to_string(), "    ");
    indent.dec();
    assert_eq!(indent.to_string(), "");
}

#[test]
fn module_name_replaces_dots() {
    assert_eq!(get_module_name("Std.Util.Basic"), "Std_Util_Basic");
    assert_eq!(get_module_name("Main"), "Main");
    assert_eq!(get_module_name(""), "");
    assert_eq!(get_module_name(".a."), "_a_");
}

#[test]
fn module_name_is_stable() {
    let once = get_module_name("Data.Map.Internal");
    let twice = get_module_name(&once);
    assert_eq!(once, twice);
    assert!(!once.contains('.'));
    assert_eq!(once.len(), "Data.Map.Internal".len());
}

#[test]
fn arg_names() {
    assert_eq!(arg_name(0), "arg0");
    assert_eq!(arg_name(7), "arg7");
    assert_eq!(arg_name(42), "arg42");
    assert_ne!(arg_name(1), arg_name(11));
    assert_ne!(arg_name(12), arg_name(21));
}

#[test]
fn opadd_body() {
    let mut out = String::from("x");
    let mut indent = indent_at(1);
    generate_opadd_builtin_body(&mut out, &mut indent, "Int");
    assert_eq!(
        out,
        "x    let value = arg0.value + arg1.value;\n    Int { value : value }"
    );
    assert_eq!(indent.to_string(), "    ");
}

#[test]
fn arithmetic_bodies() {
    let mut out = String::new();
    let mut indent = Indent::new();
    generate_opsub_builtin_body(&mut out, &mut indent, "Int");
    assert_eq!(out, "let value = arg0.value - arg1.value;\nInt { value : value }");
    let mut out = String::new();
    generate_opmul_builtin_body(&mut out, &mut indent, "Float");
    assert_eq!(out, "let value = arg0.value * arg1.value;\nFloat { value : value }");
    let mut out = String::new();
    generate_opdiv_builtin_body(&mut out, &mut indent, "Int");
    assert_eq!(out, "let value = arg0.value / arg1.value;\nInt { value : value }");
}

#[test]
fn show_and_opeq_bodies() {
    let mut out = String::new();
    let mut indent = Indent::new();
    generate_show_builtin_body(&mut out, &mut indent, "crate::String::String");
    assert_eq!(
        out,
        "let value = format!(\"{}\", arg0.value);\ncrate::String::String { value : value }"
    );
    let mut out = String::new();
    generate_opeq_builtin_body(&mut out, &mut indent, "Bool");
    assert_eq!(
        out,
        "let value = arg0.value == arg1.value;\n match value { true => Bool::True, false => Bool::False, }"
    );
}

#[test]
fn cmp_body() {
    let mut out = String::new();
    let mut indent = Indent::new();
    generate_cmp_builtin_body(&mut out, &mut indent, "Ord");
    let expected = "match arg0.cmp(&arg1) {\n     std::cmp::Ordering::Less => { Ord::Less }\n     std::cmp::Ordering::Equal => { Ord::Equal }\n     std::cmp::Ordering::Greater => { Ord::Greater }\n}";
    assert_eq!(out, expected);
    assert_eq!(indent.to_string(), "");
}

#[test]
fn partial_cmp_body() {
    let mut out = String::new();
    let mut indent = Indent::new();
    generate_partial_cmp_builtin_body(&mut out, &mut indent, "Opt", "Ord");
    let expected = "match arg0.partial_cmp(&arg1) {\n     Some(std::cmp::Ordering::Less) => { Opt::Some(Ord::Less) }\n     Some(std::cmp::Ordering::Equal) => { Opt::Some(Ord::Equal) }\n     Some(std::cmp::Ordering::Greater) => { Opt::Some(Ord::Greater) }\n     None => { Opt::None }\n}";
    assert_eq!(out, expected);
}

#[test]
fn num_builtins_are_one_level_deeper() {
    let mut out = String::new();
    let mut indent = Indent::new();
    generate_num_builtins(&mut out, &mut indent, "opAdd", "Int", "Ord");
    assert_eq!(
        out,
        "    let value = arg0.value + arg1.value;\n    Int { value : value }"
    );
    assert_eq!(indent.to_string(), "");
    let mut out = String::new();
    generate_num_builtins(&mut out, &mut indent, "show", "Str", "Ord");
    assert_eq!(
        out,
        "    let value = format!(\"{}\", arg0.value);\n    Str { value : value }"
    );
}

#[test]
fn string_builtins() {
    let mut out = String::new();
    let mut indent = Indent::new();
    generate_string_builtins(&mut out, &mut indent, "opAdd", "Str", "Ord");
    assert_eq!(
        out,
        "    let value = format!(\"{}{}\", arg0.value, arg1.value);\n    Str { value : value }"
    );
    let mut out = String::new();
    generate_string_builtins(&mut out, &mut indent, "cmp", "Ord", "Ord");
    assert!(out.starts_with("    match arg0.cmp(&arg1) {\n         std::cmp::Ordering::Less"));
    assert!(out.ends_with("\n    }"));
}

#[test]
fn map_builtins() {
    let mut out = String::new();
    let mut indent = Indent::new();
    generate_map_builtins(&mut out, &mut indent, "empty", "M", "O");
    assert_eq!(
        out,
        "    let value = std::collections::BTreeMap::new();\n    M { value : value }"
    );
    let mut out = String::new();
    generate_map_builtins(&mut out, &mut indent, "insert", "T", "O");
    let expected = "    let mut arg0 = arg0;\n    let value = match arg0.value.insert(arg1, arg2) {\n         Some(v) => O::Some(v),\n         None => O::None,\n    };\n    T { field_0 : arg0, field_1: value }";
    assert_eq!(out, expected);
    let mut out = String::new();
    generate_map_builtins(&mut out, &mut indent, "remove", "T", "O");
    assert!(out.contains("let value = match arg0.value.remove(&arg1) {\n"));
    let mut out = String::new();
    generate_map_builtins(&mut out, &mut indent, "get", "O", "X");
    let expected = "    match arg0.value.get(&arg1) {\n         Some(v) => O::Some(v.clone()),\n         None => O::None,\n    }";
    assert_eq!(out, expected);
    assert_eq!(indent.to_string(), "");
}

#[test]
fn list_builtins() {
    let mut out = String::new();
    let mut indent = Indent::new();
    generate_list_builtins(&mut out, &mut indent, "toList", "L");
    assert_eq!(out, "");
    generate_list_builtins(&mut out, &mut indent, "show", "S");
    assert_eq!(
        out,
        "    let subs: Vec<_> = arg0.value.iter().map(|item| format!(\"{}\", item)).collect();\n    S { value : format!(\"[{}]\", subs.join(\", \")) }"
    );
}

#[test]
fn builtin_dispatch_by_module() {
    let mut out = String::new();
    let mut indent = Indent::new();
    generate_builtin("Float", "opSub", &mut out, &mut indent, "F", "O", "P", &vec![]);
    assert_eq!(out, "    let value = arg0.value - arg1.value;\n    F { value : value }");
    let mut out = String::new();
    generate_builtin("Std.Util.Basic", "println", &mut out, &mut indent, "Unit", "O", "P", &vec![]);
    assert_eq!(out, "    println!(\"{}\", arg0);\n    Unit { }");
    let mut out = String::new();
    generate_builtin("Iterator", "map", &mut out, &mut indent, "It", "O", "P", &vec![]);
    assert_eq!(out, "    It { }");
}

#[test]
fn builtin_boolean_operators() {
    let mut out = String::new();
    let mut indent = Indent::new();
    generate_builtin("Std.Ops", "opAnd", &mut out, &mut indent, "B", "O", "P", &vec![]);
    assert_eq!(
        out,
        "     match (arg0, arg1) { (B::True, B::True) => B::True,(B::True, B::False) => B::False,(B::False, B::True) => B::False,(B::False, B::False) => B::False, }"
    );
    let mut out = String::new();
    generate_builtin("Std.Ops", "opOr", &mut out, &mut indent, "B", "O", "P", &vec![]);
    assert_eq!(
        out,
        "     match (arg0, arg1) { (B::True, B::True) => B::True,(B::True, B::False) => B::True,(B::False, B::True) => B::True,(B::False, B::False) => B::False, }"
    );
}

#[test]
fn builtin_assert_uses_the_argument_type() {
    let mut out = String::new();
    let mut indent = Indent::new();
    let arg_types = vec![String::from("crate::Bool::Bool")];
    generate_builtin("Std.Util", "assert", &mut out, &mut indent, "Unit", "O", "P", &arg_types);
    assert_eq!(
        out,
        "     match arg0 { crate::Bool::Bool::True => {}, crate::Bool::Bool::False => {{ panic!(\"Assertion failed\"); }} }    Unit { }"
    );
}

#[test]
fn builtin_map_insert_through_dispatch() {
    let mut out = String::new();
    let mut indent = indent_at(1);
    generate_builtin("Map", "insert", &mut out, &mut indent, "T", "O", "Opt", &vec![]);
    assert!(out.starts_with("        let mut arg0 = arg0;\n"));
    assert!(out.contains("             Some(v) => Opt::Some(v),\n"));
    assert_eq!(indent.to_string(), "    ");
}
