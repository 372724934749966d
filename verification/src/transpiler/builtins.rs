use crate::transpiler::util::spaces;
use crate::transpiler::util::Indent;
use crate::util::str_eq;
use vstd::prelude::*;

verus! {

// The bodies of the library functions that the generated Rust code implements
// directly. Each generator appends its text to `out`, indented by `indent`;
// `result_ty_str` is the Rust name of the function's result type.

/// A body that computes `value` in one line and wraps it in the result record.
pub open spec fn value_body_text(level: int, line: Seq<char>, result_ty: Seq<char>) -> Seq<char> {
    spaces(level) + line + spaces(level) + result_ty + " { value : value }"@
}

/// The body of `show` on numbers.
pub open spec fn show_body_text(level: int, result_ty: Seq<char>) -> Seq<char> {
    value_body_text(level, "let value = format!(\"{}\", arg0.value);\n"@, result_ty)
}

/// The body of `opEq` on numbers and strings.
pub open spec fn opeq_body_text(level: int, result_ty: Seq<char>) -> Seq<char> {
    spaces(level) + "let value = arg0.value == arg1.value;\n"@ + spaces(level)
        + " match value { true => "@ + result_ty + "::True, false => "@ + result_ty
        + "::False, }"@
}

/// The body of `opDiv` on numbers.
pub open spec fn opdiv_body_text(level: int, result_ty: Seq<char>) -> Seq<char> {
    value_body_text(level, "let value = arg0.value / arg1.value;\n"@, result_ty)
}

/// The body of `opMul` on numbers.
pub open spec fn opmul_body_text(level: int, result_ty: Seq<char>) -> Seq<char> {
    value_body_text(level, "let value = arg0.value * arg1.value;\n"@, result_ty)
}

/// The body of `opSub` on numbers.
pub open spec fn opsub_body_text(level: int, result_ty: Seq<char>) -> Seq<char> {
    value_body_text(level, "let value = arg0.value - arg1.value;\n"@, result_ty)
}

/// The body of `opAdd` on numbers.
pub open spec fn opadd_body_text(level: int, result_ty: Seq<char>) -> Seq<char> {
    value_body_text(level, "let value = arg0.value + arg1.value;\n"@, result_ty)
}

/// The body of `cmp`: a match on the three orderings of Rust.
pub open spec fn cmp_body_text(level: int, result_ty: Seq<char>) -> Seq<char> {
    spaces(level) + "match arg0.cmp(&arg1) {\n"@
        + spaces(level + 4) + " std::cmp::Ordering::Less => { "@ + result_ty + "::Less }\n"@
        + spaces(level + 4) + " std::cmp::Ordering::Equal => { "@ + result_ty + "::Equal }\n"@
        + spaces(level + 4) + " std::cmp::Ordering::Greater => { "@ + result_ty + "::Greater }\n"@
        + spaces(level) + "}"@
}

/// The body of `partialCmp`: a match on the optional orderings of Rust;
/// `ord_ty` is the Rust name of the ordering type of the language.
pub open spec fn partial_cmp_body_text(level: int, result_ty: Seq<char>, ord_ty: Seq<char>) -> Seq<char> {
    spaces(level) + "match arg0.partial_cmp(&arg1) {\n"@
        + spaces(level + 4) + " Some(std::cmp::Ordering::Less) => { "@ + result_ty + "::Some("@ + ord_ty + "::Less) }\n"@
        + spaces(level + 4) + " Some(std::cmp::Ordering::Equal) => { "@ + result_ty + "::Some("@ + ord_ty + "::Equal) }\n"@
        + spaces(level + 4) + " Some(std::cmp::Ordering::Greater) => { "@ + result_ty + "::Some("@ + ord_ty + "::Greater) }\n"@
        + spaces(level + 4) + " None => { "@ + result_ty + "::None }\n"@
        + spaces(level) + "}"@
}

/// The library functions on numbers that have a generated body.
pub open spec fn is_num_builtin(name: Seq<char>) -> bool {
    ||| name == "opAdd"@
    ||| name == "opSub"@
    ||| name == "opMul"@
    ||| name == "opDiv"@
    ||| name == "opEq"@
    ||| name == "show"@
    ||| name == "partialCmp"@
    ||| name == "cmp"@
}

/// The body of the library function `name` on numbers, one level deeper than `level`.
pub open spec fn num_builtin_text(level: int, name: Seq<char>, result_ty: Seq<char>, ord_ty: Seq<char>) -> Seq<char> {
    let inner = level + 4;
    if name == "opAdd"@ {
        opadd_body_text(inner, result_ty)
    } else if name == "opSub"@ {
        opsub_body_text(inner, result_ty)
    } else if name == "opMul"@ {
        opmul_body_text(inner, result_ty)
    } else if name == "opDiv"@ {
        opdiv_body_text(inner, result_ty)
    } else if name == "opEq"@ {
        opeq_body_text(inner, result_ty)
    } else if name == "show"@ {
        show_body_text(inner, result_ty)
    } else if name == "partialCmp"@ {
        partial_cmp_body_text(inner, result_ty, ord_ty)
    } else {
        cmp_body_text(inner, result_ty)
    }
}

/// The library functions on strings that have a generated body.
pub open spec fn is_string_builtin(name: Seq<char>) -> bool {
    ||| name == "opAdd"@
    ||| name == "opEq"@
    ||| name == "partialCmp"@
    ||| name == "cmp"@
}

/// The body of the library function `name` on strings, one level deeper than `level`.
pub open spec fn string_builtin_text(level: int, name: Seq<char>, result_ty: Seq<char>, ord_ty: Seq<char>) -> Seq<char> {
    let inner = level + 4;
    if name == "opAdd"@ {
        value_body_text(inner, "let value = format!(\"{}{}\", arg0.value, arg1.value);\n"@, result_ty)
    } else if name == "opEq"@ {
        opeq_body_text(inner, result_ty)
    } else if name == "partialCmp"@ {
        partial_cmp_body_text(inner, result_ty, ord_ty)
    } else {
        cmp_body_text(inner, result_ty)
    }
}

/// The library functions on maps that have a generated body.
pub open spec fn is_map_builtin(name: Seq<char>) -> bool {
    ||| name == "empty"@
    ||| name == "insert"@
    ||| name == "remove"@
    ||| name == "get"@
}

/// The body of `insert` or `remove` on maps, whose call on the map is `call`:
/// the updated map and the value that was there. `option_ty` is the Rust
/// name of the optional value type.
pub open spec fn map_update_text(level: int, call: Seq<char>, result_ty: Seq<char>, option_ty: Seq<char>) -> Seq<char> {
    spaces(level) + "let mut arg0 = arg0;\n"@
        + spaces(level) + call
        + spaces(level + 4) + " Some(v) => "@ + option_ty + "::Some(v),\n"@
        + spaces(level + 4) + " None => "@ + option_ty + "::None,\n"@
        + spaces(level) + "};\n"@
        + spaces(level) + result_ty + " { field_0 : arg0, field_1: value }"@
}

/// The body of the library function `name` on maps, one level deeper than `level`.
pub open spec fn map_builtin_text(level: int, name: Seq<char>, result_ty: Seq<char>, option_ty: Seq<char>) -> Seq<char> {
    let inner = level + 4;
    if name == "empty"@ {
        value_body_text(inner, "let value = std::collections::BTreeMap::new();\n"@, result_ty)
    } else if name == "insert"@ {
        map_update_text(inner, "let value = match arg0.value.insert(arg1, arg2) {\n"@, result_ty, option_ty)
    } else if name == "remove"@ {
        map_update_text(inner, "let value = match arg0.value.remove(&arg1) {\n"@, result_ty, option_ty)
    } else {
        spaces(inner) + "match arg0.value.get(&arg1) {\n"@
            + spaces(inner + 4) + " Some(v) => "@ + result_ty + "::Some(v.clone()),\n"@
            + spaces(inner + 4) + " None => "@ + result_ty + "::None,\n"@
            + spaces(inner) + "}"@
    }
}

/// The library functions on lists that the generator knows.
pub open spec fn is_list_builtin(name: Seq<char>) -> bool {
    ||| name == "show"@
    ||| name == "toList"@
    ||| name == "iter"@
    ||| name == "opEq"@
}

/// The body of the library function `name` on lists, one level deeper than
/// `level`; only `show` has one.
pub open spec fn list_builtin_text(level: int, name: Seq<char>, result_ty: Seq<char>) -> Seq<char> {
    let inner = level + 4;
    if name == "show"@ {
        spaces(inner) + "let subs: Vec<_> = arg0.value.iter().map(|item| format!(\"{}\", item)).collect();\n"@
            + spaces(inner) + result_ty + " { value : format!(\"[{}]\", subs.join(\", \")) }"@
    } else {
        Seq::empty()
    }
}

/// A match on two booleans of the language, with the four results in the
/// order (true, true), (true, false), (false, true), (false, false).
pub open spec fn bool_table_text(level: int, r: Seq<char>, results: Seq<Seq<char>>) -> Seq<char> {
    spaces(level) + " match (arg0, arg1) { ("@ + r + "::True, "@ + r + "::True) => "@ + r + results[0] + ","@
        + "("@ + r + "::True, "@ + r + "::False) => "@ + r + results[1] + ","@
        + "("@ + r + "::False, "@ + r + "::True) => "@ + r + results[2] + ","@
        + "("@ + r + "::False, "@ + r + "::False) => "@ + r + results[3] + ", }"@
}

/// The library functions of the other modules that have a generated body.
pub open spec fn is_other_builtin(module: Seq<char>, name: Seq<char>) -> bool {
    ||| module == "Std.Ops"@ && name == "opAnd"@
    ||| module == "Std.Ops"@ && name == "opOr"@
    ||| module == "Std.Util.Basic"@ && name == "println"@
    ||| module == "Std.Util.Basic"@ && name == "print"@
    ||| module == "Std.Util"@ && name == "assert"@
    ||| module == "Iterator"@ && name == "map"@
    ||| module == "Iterator"@ && name == "filter"@
}

/// The body of a library function of another module, one level deeper than
/// `level`; `arg_ty` is the Rust name of the type of its first argument.
pub open spec fn other_builtin_text(level: int, module: Seq<char>, name: Seq<char>, r: Seq<char>, arg_ty: Seq<char>) -> Seq<char> {
    let inner = level + 4;
    if module == "Std.Ops"@ && name == "opAnd"@ {
        bool_table_text(inner, r, seq!["::True"@, "::False"@, "::False"@, "::False"@])
    } else if module == "Std.Ops"@ && name == "opOr"@ {
        bool_table_text(inner, r, seq!["::True"@, "::True"@, "::True"@, "::False"@])
    } else if module == "Std.Util.Basic"@ && name == "println"@ {
        spaces(inner) + "println!(\"{}\", arg0);\n"@ + spaces(inner) + r + " { }"@
    } else if module == "Std.Util.Basic"@ && name == "print"@ {
        spaces(inner) + "print!(\"{}\", arg0);\n"@ + spaces(inner) + r + " { }"@
    } else if module == "Std.Util"@ && name == "assert"@ {
        spaces(inner) + " match arg0 { "@ + arg_ty + "::True => {}, "@ + arg_ty + "::False => "@
            + "{{ panic!(\"Assertion failed\"); }}"@ + " }"@ + spaces(inner) + r + " { }"@
    } else {
        spaces(inner) + r + " { }"@
    }
}

/// The library functions that have a generated body, by module and name.
pub open spec fn is_builtin(module: Seq<char>, name: Seq<char>) -> bool {
    if module == "Int"@ || module == "Float"@ {
        is_num_builtin(name)
    } else if module == "String"@ {
        is_string_builtin(name)
    } else if module == "Map"@ {
        is_map_builtin(name)
    } else if module == "List"@ {
        is_list_builtin(name)
    } else {
        is_other_builtin(module, name)
    }
}

/// The generated body of a library function, by module and name.
pub open spec fn builtin_text(
    level: int,
    module: Seq<char>,
    name: Seq<char>,
    result_ty: Seq<char>,
    ord_ty: Seq<char>,
    option_ty: Seq<char>,
    arg_ty: Seq<char>,
) -> Seq<char> {
    if module == "Int"@ || module == "Float"@ {
        num_builtin_text(level, name, result_ty, ord_ty)
    } else if module == "String"@ {
        string_builtin_text(level, name, result_ty, ord_ty)
    } else if module == "Map"@ {
        map_builtin_text(level, name, result_ty, option_ty)
    } else if module == "List"@ {
        list_builtin_text(level, name, result_ty)
    } else {
        other_builtin_text(level, module, name, result_ty, arg_ty)
    }
}

/// Appends a body that computes `value` in the line `line`.
fn write_value_body(out: &mut String, indent: &Indent, line: &str, result_ty_str: &str)
    ensures
        final(out)@ == old(out)@ + value_body_text(indent.level(), line@, result_ty_str@),
{
    let ind = indent.to_string();
    let mut t = indent.to_string();
    t.append(line);
    t.append(ind.as_str());
    t.append(result_ty_str);
    t.append(" { value : value }");
    out.append(t.as_str());
}

/// Appends the body of `partialCmp`; `ord_ty_str` is the Rust name of the
/// ordering type of the language.
pub fn generate_partial_cmp_builtin_body(
    out: &mut String,
    indent: &mut Indent,
    result_ty_str: &str,
    ord_ty_str: &str,
)
    requires
        old(indent).level() + 4 <= usize::MAX,
    ensures
        final(indent).level() == old(indent).level(),
        final(out)@ == old(out)@ + partial_cmp_body_text(old(indent).level(), result_ty_str@, ord_ty_str@),
{
    proof {
        indent.lemma_level_range();
    }
    let outer = indent.to_string();
    let mut t = indent.to_string();
    t.append("match arg0.partial_cmp(&arg1) {\n");
    indent.inc();
    let inner = indent.to_string();
    t.append(inner.as_str());
    t.append(" Some(std::cmp::Ordering::Less) => { ");
    t.append(result_ty_str);
    t.append("::Some(");
    t.append(ord_ty_str);
    t.append("::Less) }\n");
    t.append(inner.as_str());
    t.append(" Some(std::cmp::Ordering::Equal) => { ");
    t.append(result_ty_str);
    t.append("::Some(");
    t.append(ord_ty_str);
    t.append("::Equal) }\n");
    t.append(inner.as_str());
    t.append(" Some(std::cmp::Ordering::Greater) => { ");
    t.append(result_ty_str);
    t.append("::Some(");
    t.append(ord_ty_str);
    t.append("::Greater) }\n");
    t.append(inner.as_str());
    t.append(" None => { ");
    t.append(result_ty_str);
    t.append("::None }\n");
    indent.dec();
    t.append(outer.as_str());
    t.append("}");
    out.append(t.as_str());
}

/// Appends the body of `cmp`.
pub fn generate_cmp_builtin_body(out: &mut String, indent: &mut Indent, result_ty_str: &str)
    requires
        old(indent).level() + 4 <= usize::MAX,
    ensures
        final(indent).level() == old(indent).level(),
        final(out)@ == old(out)@ + cmp_body_text(old(indent).level(), result_ty_str@),
{
    proof {
        indent.lemma_level_range();
    }
    let outer = indent.to_string();
    let mut t = indent.to_string();
    t.append("match arg0.cmp(&arg1) {\n");
    indent.inc();
    let inner = indent.to_string();
    t.append(inner.as_str());
    t.append(" std::cmp::Ordering::Less => { ");
    t.append(result_ty_str);
    t.append("::Less }\n");
    t.append(inner.as_str());
    t.append(" std::cmp::Ordering::Equal => { ");
    t.append(result_ty_str);
    t.append("::Equal }\n");
    t.append(inner.as_str());
    t.append(" std::cmp::Ordering::Greater => { ");
    t.append(result_ty_str);
    t.append("::Greater }\n");
    indent.dec();
    t.append(outer.as_str());
    t.append("}");
    out.append(t.as_str());
}

/// Appends the body of `show` on numbers.
pub fn generate_show_builtin_body(out: &mut String, indent: &mut Indent, result_ty_str: &str)
    ensures
        final(indent).level() == old(indent).level(),
        final(out)@ == old(out)@ + show_body_text(old(indent).level(), result_ty_str@),
{
    write_value_body(out, indent, "let value = format!(\"{}\", arg0.value);\n", result_ty_str);
}

/// Appends the body of `opEq`.
pub fn generate_opeq_builtin_body(out: &mut String, indent: &mut Indent, result_ty_str: &str)
    ensures
        final(indent).level() == old(indent).level(),
        final(out)@ == old(out)@ + opeq_body_text(old(indent).level(), result_ty_str@),
{
    let ind = indent.to_string();
    let mut t = indent.to_string();
    t.append("let value = arg0.value == arg1.value;\n");
    t.append(ind.as_str());
    t.append(" match value { true => ");
    t.append(result_ty_str);
    t.append("::True, false => ");
    t.append(result_ty_str);
    t.append("::False, }");
    out.append(t.as_str());
}

/// Appends the body of `opDiv` on numbers.
pub fn generate_opdiv_builtin_body(out: &mut String, indent: &mut Indent, result_ty_str: &str)
    ensures
        final(indent).level() == old(indent).level(),
        final(out)@ == old(out)@ + opdiv_body_text(old(indent).level(), result_ty_str@),
{
    write_value_body(out, indent, "let value = arg0.value / arg1.value;\n", result_ty_str);
}

/// Appends the body of `opMul` on numbers.
pub fn generate_opmul_builtin_body(out: &mut String, indent: &mut Indent, result_ty_str: &str)
    ensures
        final(indent).level() == old(indent).level(),
        final(out)@ == old(out)@ + opmul_body_text(old(indent).level(), result_ty_str@),
{
    write_value_body(out, indent, "let value = arg0.value * arg1.value;\n", result_ty_str);
}

/// Appends the body of `opSub` on numbers.
pub fn generate_opsub_builtin_body(out: &mut String, indent: &mut Indent, result_ty_str: &str)
    ensures
        final(indent).level() == old(indent).level(),
        final(out)@ == old(out)@ + opsub_body_text(old(indent).level(), result_ty_str@),
{
    write_value_body(out, indent, "let value = arg0.value - arg1.value;\n", result_ty_str);
}

/// Appends the body of `opAdd` on numbers.
pub fn generate_opadd_builtin_body(out: &mut String, indent: &mut Indent, result_ty_str: &str)
    ensures
        final(indent).level() == old(indent).level(),
        final(out)@ == old(out)@ + opadd_body_text(old(indent).level(), result_ty_str@),
{
    write_value_body(out, indent, "let value = arg0.value + arg1.value;\n", result_ty_str);
}

/// Appends the body of the library function `original_name` on numbers, one
/// level deeper than `indent`; `ord_ty_str` is the Rust name of the ordering
/// type of the language, which `partialCmp` needs.
pub fn generate_num_builtins(
    out: &mut String,
    indent: &mut Indent,
    original_name: &str,
    result_ty_str: &str,
    ord_ty_str: &str,
)
    requires
        is_num_builtin(original_name@),
        old(indent).level() + 8 <= usize::MAX,
    ensures
        final(indent).level() == old(indent).level(),
        final(out)@ == old(out)@ + num_builtin_text(
            old(indent).level(),
            original_name@,
            result_ty_str@,
            ord_ty_str@,
        ),
{
    proof {
        indent.lemma_level_range();
    }
    indent.inc();
    if str_eq(original_name, "opAdd") {
        generate_opadd_builtin_body(out, indent, result_ty_str);
    } else if str_eq(original_name, "opSub") {
        generate_opsub_builtin_body(out, indent, result_ty_str);
    } else if str_eq(original_name, "opMul") {
        generate_opmul_builtin_body(out, indent, result_ty_str);
    } else if str_eq(original_name, "opDiv") {
        generate_opdiv_builtin_body(out, indent, result_ty_str);
    } else if str_eq(original_name, "opEq") {
        generate_opeq_builtin_body(out, indent, result_ty_str);
    } else if str_eq(original_name, "show") {
        generate_show_builtin_body(out, indent, result_ty_str);
    } else if str_eq(original_name, "partialCmp") {
        generate_partial_cmp_builtin_body(out, indent, result_ty_str, ord_ty_str);
    } else {
        generate_cmp_builtin_body(out, indent, result_ty_str);
    }
    indent.dec();
}

/// Appends the body of the library function `original_name` on strings, one
/// level deeper than `indent`.
pub fn generate_string_builtins(
    out: &mut String,
    indent: &mut Indent,
    original_name: &str,
    result_ty_str: &str,
    ord_ty_str: &str,
)
    requires
        is_string_builtin(original_name@),
        old(indent).level() + 8 <= usize::MAX,
    ensures
        final(indent).level() == old(indent).level(),
        final(out)@ == old(out)@ + string_builtin_text(
            old(indent).level(),
            original_name@,
            result_ty_str@,
            ord_ty_str@,
        ),
{
    proof {
        indent.lemma_level_range();
    }
    indent.inc();
    if str_eq(original_name, "opAdd") {
        write_value_body(
            out,
            indent,
            "let value = format!(\"{}{}\", arg0.value, arg1.value);\n",
            result_ty_str,
        );
    } else if str_eq(original_name, "opEq") {
        generate_opeq_builtin_body(out, indent, result_ty_str);
    } else if str_eq(original_name, "partialCmp") {
        generate_partial_cmp_builtin_body(out, indent, result_ty_str, ord_ty_str);
    } else {
        generate_cmp_builtin_body(out, indent, result_ty_str);
    }
    indent.dec();
}

/// Appends the body of `insert` or `remove` on maps.
fn write_map_update(out: &mut String, indent: &mut Indent, call: &str, result_ty_str: &str, option_ty_str: &str)
    requires
        old(indent).level() + 4 <= usize::MAX,
    ensures
        final(indent).level() == old(indent).level(),
        final(out)@ == old(out)@ + map_update_text(old(indent).level(), call@, result_ty_str@, option_ty_str@),
{
    proof {
        indent.lemma_level_range();
    }
    let outer = indent.to_string();
    let mut t = indent.to_string();
    t.append("let mut arg0 = arg0;\n");
    t.append(outer.as_str());
    t.append(call);
    indent.inc();
    let inner = indent.to_string();
    t.append(inner.as_str());
    t.append(" Some(v) => ");
    t.append(option_ty_str);
    t.append("::Some(v),\n");
    t.append(inner.as_str());
    t.append(" None => ");
    t.append(option_ty_str);
    t.append("::None,\n");
    indent.dec();
    t.append(outer.as_str());
    t.append("};\n");
    t.append(outer.as_str());
    t.append(result_ty_str);
    t.append(" { field_0 : arg0, field_1: value }");
    out.append(t.as_str());
}

/// Appends the body of the library function `original_name` on maps, one
/// level deeper than `indent`; `option_ty_str` is the Rust name of the
/// optional value type that `insert` and `remove` give back.
pub fn generate_map_builtins(
    out: &mut String,
    indent: &mut Indent,
    original_name: &str,
    result_ty_str: &str,
    option_ty_str: &str,
)
    requires
        is_map_builtin(original_name@),
        old(indent).level() + 8 <= usize::MAX,
    ensures
        final(indent).level() == old(indent).level(),
        final(out)@ == old(out)@ + map_builtin_text(
            old(indent).level(),
            original_name@,
            result_ty_str@,
            option_ty_str@,
        ),
{
    proof {
        indent.lemma_level_range();
    }
    indent.inc();
    if str_eq(original_name, "empty") {
        write_value_body(out, indent, "let value = std::collections::BTreeMap::new();\n", result_ty_str);
    } else if str_eq(original_name, "insert") {
        write_map_update(
            out,
            indent,
            "let value = match arg0.value.insert(arg1, arg2) {\n",
            result_ty_str,
            option_ty_str,
        );
    } else if str_eq(original_name, "remove") {
        write_map_update(
            out,
            indent,
            "let value = match arg0.value.remove(&arg1) {\n",
            result_ty_str,
            option_ty_str,
        );
    } else {
        let outer = indent.to_string();
        let mut t = indent.to_string();
        t.append("match arg0.value.get(&arg1) {\n");
        indent.inc();
        let inner = indent.to_string();
        t.append(inner.as_str());
        t.append(" Some(v) => ");
        t.append(result_ty_str);
        t.append("::Some(v.clone()),\n");
        t.append(inner.as_str());
        t.append(" None => ");
        t.append(result_ty_str);
        t.append("::None,\n");
        indent.dec();
        t.append(outer.as_str());
        t.append("}");
        out.append(t.as_str());
    }
    indent.dec();
}

/// Appends the body of the library function `original_name` on lists, one
/// level deeper than `indent`; only `show` has one.
pub fn generate_list_builtins(
    out: &mut String,
    indent: &mut Indent,
    original_name: &str,
    result_ty_str: &str,
)
    requires
        is_list_builtin(original_name@),
        old(indent).level() + 4 <= usize::MAX,
    ensures
        final(indent).level() == old(indent).level(),
        final(out)@ == old(out)@ + list_builtin_text(old(indent).level(), original_name@, result_ty_str@),
{
    proof {
        indent.lemma_level_range();
    }
    indent.inc();
    if str_eq(original_name, "show") {
        let ind = indent.to_string();
        let mut t = indent.to_string();
        t.append("let subs: Vec<_> = arg0.value.iter().map(|item| format!(\"{}\", item)).collect();\n");
        t.append(ind.as_str());
        t.append(result_ty_str);
        t.append(" { value : format!(\"[{}]\", subs.join(\", \")) }");
        out.append(t.as_str());
    } else {
        assert(out@ =~= old(out)@ + Seq::<char>::empty());
    }
    indent.dec();
}

/// Appends a match on two booleans of the language with the given results.
fn write_bool_table(out: &mut String, indent: &Indent, r: &str, results: [&str; 4])
    ensures
        final(out)@ == old(out)@ + bool_table_text(
            indent.level(),
            r@,
            seq![results[0]@, results[1]@, results[2]@, results[3]@],
        ),
{
    let mut t = indent.to_string();
    t.append(" match (arg0, arg1) { (");
    t.append(r);
    t.append("::True, ");
    t.append(r);
    t.append("::True) => ");
    t.append(r);
    t.append(results[0]);
    t.append(",");
    t.append("(");
    t.append(r);
    t.append("::True, ");
    t.append(r);
    t.append("::False) => ");
    t.append(r);
    t.append(results[1]);
    t.append(",");
    t.append("(");
    t.append(r);
    t.append("::False, ");
    t.append(r);
    t.append("::True) => ");
    t.append(r);
    t.append(results[2]);
    t.append(",");
    t.append("(");
    t.append(r);
    t.append("::False, ");
    t.append(r);
    t.append("::False) => ");
    t.append(r);
    t.append(results[3]);
    t.append(", }");
    out.append(t.as_str());
}

/// Appends the body of the library function `function_name` of `module`,
/// one level deeper than `indent`. `ord_ty_str` and `option_ty_str` are the
/// Rust names of the ordering type of the language and of the optional value
/// type of maps; `arg_types` are the Rust names of the argument types.
pub fn generate_builtin(
    module: &str,
    function_name: &str,
    out: &mut String,
    indent: &mut Indent,
    result_ty_str: &str,
    ord_ty_str: &str,
    option_ty_str: &str,
    arg_types: &Vec<String>,
)
    requires
        is_builtin(module@, function_name@),
        module@ == "Std.Util"@ && function_name@ == "assert"@ ==> arg_types@.len() >= 1,
        old(indent).level() + 8 <= usize::MAX,
    ensures
        final(indent).level() == old(indent).level(),
        final(out)@ == old(out)@ + builtin_text(
            old(indent).level(),
            module@,
            function_name@,
            result_ty_str@,
            ord_ty_str@,
            option_ty_str@,
            if arg_types@.len() > 0 { arg_types@[0]@ } else { Seq::empty() },
        ),
{
    proof {
        indent.lemma_level_range();
    }
    if str_eq(module, "Int") || str_eq(module, "Float") {
        generate_num_builtins(out, indent, function_name, result_ty_str, ord_ty_str);
        return;
    }
    if str_eq(module, "String") {
        generate_string_builtins(out, indent, function_name, result_ty_str, ord_ty_str);
        return;
    }
    if str_eq(module, "Map") {
        generate_map_builtins(out, indent, function_name, result_ty_str, option_ty_str);
        return;
    }
    if str_eq(module, "List") {
        generate_list_builtins(out, indent, function_name, result_ty_str);
        return;
    }
    indent.inc();
    let ind = indent.to_string();
    if str_eq(module, "Std.Ops") && str_eq(function_name, "opAnd") {
        write_bool_table(out, indent, result_ty_str, ["::True", "::False", "::False", "::False"]);
    } else if str_eq(module, "Std.Ops") && str_eq(function_name, "opOr") {
        write_bool_table(out, indent, result_ty_str, ["::True", "::True", "::True", "::False"]);
    } else if str_eq(module, "Std.Util.Basic") && str_eq(function_name, "println") {
        let mut t = indent.to_string();
        t.append("println!(\"{}\", arg0);\n");
        t.append(ind.as_str());
        t.append(result_ty_str);
        t.append(" { }");
        out.append(t.as_str());
    } else if str_eq(module, "Std.Util.Basic") && str_eq(function_name, "print") {
        let mut t = indent.to_string();
        t.append("print!(\"{}\", arg0);\n");
        t.append(ind.as_str());
        t.append(result_ty_str);
        t.append(" { }");
        out.append(t.as_str());
    } else if str_eq(module, "Std.Util") && str_eq(function_name, "assert") {
        let arg_ty = arg_types[0].as_str();
        let mut t = indent.to_string();
        t.append(" match arg0 { ");
        t.append(arg_ty);
        t.append("::True => {}, ");
        t.append(arg_ty);
        t.append("::False => ");
        t.append("{{ panic!(\"Assertion failed\"); }}");
        t.append(" }");
        t.append(ind.as_str());
        t.append(result_ty_str);
        t.append(" { }");
        out.append(t.as_str());
    } else {
        let mut t = indent.to_string();
        t.append(result_ty_str);
        t.append(" { }");
        out.append(t.as_str());
    }
    indent.dec();
}

/// The module names that pick a group of library functions differ.
proof fn lemma_modules_distinct()
    ensures
        "Int"@ != "Float"@,
        "Int"@ != "String"@,
        "Int"@ != "Map"@,
        "Int"@ != "List"@,
        "Int"@ != "Std.Ops"@,
        "Int"@ != "Std.Util.Basic"@,
        "Int"@ != "Std.Util"@,
        "Float"@ != "String"@,
        "Float"@ != "Map"@,
        "Float"@ != "List"@,
        "Float"@ != "Std.Ops"@,
        "Float"@ != "Std.Util.Basic"@,
        "Float"@ != "Std.Util"@,
        "String"@ != "Map"@,
        "String"@ != "List"@,
        "String"@ != "Std.Ops"@,
        "String"@ != "Std.Util.Basic"@,
        "String"@ != "Std.Util"@,
        "Map"@ != "List"@,
        "Map"@ != "Std.Ops"@,
        "Map"@ != "Std.Util.Basic"@,
        "Map"@ != "Std.Util"@,
        "List"@ != "Std.Ops"@,
        "List"@ != "Std.Util.Basic"@,
        "List"@ != "Std.Util"@,
        "Std.Ops"@ != "Std.Util.Basic"@,
        "Std.Ops"@ != "Std.Util"@,
        "Std.Util.Basic"@ != "Std.Util"@,
{
    reveal_strlit("Int");
    reveal_strlit("Float");
    reveal_strlit("String");
    reveal_strlit("Map");
    reveal_strlit("List");
    reveal_strlit("Std.Ops");
    reveal_strlit("Std.Util.Basic");
    reveal_strlit("Std.Util");
    assert("Int"@.len() != "Float"@.len());
    assert("Int"@.len() != "String"@.len());
    assert("Int"@[0] != "Map"@[0]);
    assert("Int"@.len() != "List"@.len());
    assert("Int"@.len() != "Std.Ops"@.len());
    assert("Int"@.len() != "Std.Util.Basic"@.len());
    assert("Int"@.len() != "Std.Util"@.len());
    assert("Float"@.len() != "String"@.len());
    assert("Float"@.len() != "Map"@.len());
    assert("Float"@.len() != "List"@.len());
    assert("Float"@.len() != "Std.Ops"@.len());
    assert("Float"@.len() != "Std.Util.Basic"@.len());
    assert("Float"@.len() != "Std.Util"@.len());
    assert("String"@.len() != "Map"@.len());
    assert("String"@.len() != "List"@.len());
    assert("String"@.len() != "Std.Ops"@.len());
    assert("String"@.len() != "Std.Util.Basic"@.len());
    assert("String"@.len() != "Std.Util"@.len());
    assert("Map"@.len() != "List"@.len());
    assert("Map"@.len() != "Std.Ops"@.len());
    assert("Map"@.len() != "Std.Util.Basic"@.len());
    assert("Map"@.len() != "Std.Util"@.len());
    assert("List"@.len() != "Std.Ops"@.len());
    assert("List"@.len() != "Std.Util.Basic"@.len());
    assert("List"@.len() != "Std.Util"@.len());
    assert("Std.Ops"@.len() != "Std.Util.Basic"@.len());
    assert("Std.Ops"@.len() != "Std.Util"@.len());
    assert("Std.Util.Basic"@.len() != "Std.Util"@.len());
}

/// The names of the library functions on numbers differ.
proof fn lemma_num_names_distinct()
    ensures
        "opAdd"@ != "opSub"@,
        "opAdd"@ != "opMul"@,
        "opAdd"@ != "opDiv"@,
        "opAdd"@ != "opEq"@,
        "opAdd"@ != "show"@,
        "opAdd"@ != "partialCmp"@,
        "opAdd"@ != "cmp"@,
        "opSub"@ != "opMul"@,
        "opSub"@ != "opDiv"@,
        "opSub"@ != "opEq"@,
        "opSub"@ != "show"@,
        "opSub"@ != "partialCmp"@,
        "opSub"@ != "cmp"@,
        "opMul"@ != "opDiv"@,
        "opMul"@ != "opEq"@,
        "opMul"@ != "show"@,
        "opMul"@ != "partialCmp"@,
        "opMul"@ != "cmp"@,
        "opDiv"@ != "opEq"@,
        "opDiv"@ != "show"@,
        "opDiv"@ != "partialCmp"@,
        "opDiv"@ != "cmp"@,
        "opEq"@ != "show"@,
        "opEq"@ != "partialCmp"@,
        "opEq"@ != "cmp"@,
        "show"@ != "partialCmp"@,
        "show"@ != "cmp"@,
        "partialCmp"@ != "cmp"@,
{
    reveal_strlit("opAdd");
    reveal_strlit("opSub");
    reveal_strlit("opMul");
    reveal_strlit("opDiv");
    reveal_strlit("opEq");
    reveal_strlit("show");
    reveal_strlit("partialCmp");
    reveal_strlit("cmp");
    assert("opAdd"@[2] != "opSub"@[2]);
    assert("opAdd"@[2] != "opMul"@[2]);
    assert("opAdd"@[2] != "opDiv"@[2]);
    assert("opAdd"@.len() != "opEq"@.len());
    assert("opAdd"@.len() != "show"@.len());
    assert("opAdd"@.len() != "partialCmp"@.len());
    assert("opAdd"@.len() != "cmp"@.len());
    assert("opSub"@[2] != "opMul"@[2]);
    assert("opSub"@[2] != "opDiv"@[2]);
    assert("opSub"@.len() != "opEq"@.len());
    assert("opSub"@.len() != "show"@.len());
    assert("opSub"@.len() != "partialCmp"@.len());
    assert("opSub"@.len() != "cmp"@.len());
    assert("opMul"@[2] != "opDiv"@[2]);
    assert("opMul"@.len() != "opEq"@.len());
    assert("opMul"@.len() != "show"@.len());
    assert("opMul"@.len() != "partialCmp"@.len());
    assert("opMul"@.len() != "cmp"@.len());
    assert("opDiv"@.len() != "opEq"@.len());
    assert("opDiv"@.len() != "show"@.len());
    assert("opDiv"@.len() != "partialCmp"@.len());
    assert("opDiv"@.len() != "cmp"@.len());
    assert("opEq"@[0] != "show"@[0]);
    assert("opEq"@.len() != "partialCmp"@.len());
    assert("opEq"@.len() != "cmp"@.len());
    assert("show"@.len() != "partialCmp"@.len());
    assert("show"@.len() != "cmp"@.len());
    assert("partialCmp"@.len() != "cmp"@.len());
}

/// The names of the other library functions differ.
proof fn lemma_other_names_distinct()
    ensures
        "opAnd"@ != "opOr"@,
        "opAnd"@ != "println"@,
        "opAnd"@ != "print"@,
        "opAnd"@ != "assert"@,
        "opOr"@ != "println"@,
        "opOr"@ != "print"@,
        "opOr"@ != "assert"@,
        "println"@ != "print"@,
        "println"@ != "assert"@,
        "print"@ != "assert"@,
{
    reveal_strlit("opAnd");
    reveal_strlit("opOr");
    reveal_strlit("println");
    reveal_strlit("print");
    reveal_strlit("assert");
    assert("opAnd"@.len() != "opOr"@.len());
    assert("opAnd"@.len() != "println"@.len());
    assert("opAnd"@[0] != "print"@[0]);
    assert("opAnd"@.len() != "assert"@.len());
    assert("opOr"@.len() != "println"@.len());
    assert("opOr"@.len() != "print"@.len());
    assert("opOr"@.len() != "assert"@.len());
    assert("println"@.len() != "print"@.len());
    assert("println"@.len() != "assert"@.len());
    assert("print"@.len() != "assert"@.len());
}

/// A body that computes `value` as `arg0.value <op> arg1.value` and wraps it
/// in the result record.
pub open spec fn binary_op_body(level: int, op: Seq<char>, r: Seq<char>) -> Seq<char> {
    spaces(level) + "let value = arg0.value "@ + op + " arg1.value;\n"@ + spaces(level) + r + " { value : value }"@
}

/// The arithmetic library functions on numbers compute with the Rust
/// operator of the same meaning on the values: `+` for `opAdd`, `-` for
/// `opSub`, `*` for `opMul` and `/` for `opDiv`, for integers and floats alike.
pub proof fn lemma_num_operators(level: int, module: Seq<char>, r: Seq<char>, o: Seq<char>, op: Seq<char>, a: Seq<char>)
    requires
        module == "Int"@ || module == "Float"@,
    ensures
        builtin_text(level, module, "opAdd"@, r, o, op, a) == binary_op_body(level + 4, "+"@, r),
        builtin_text(level, module, "opSub"@, r, o, op, a) == binary_op_body(level + 4, "-"@, r),
        builtin_text(level, module, "opMul"@, r, o, op, a) == binary_op_body(level + 4, "*"@, r),
        builtin_text(level, module, "opDiv"@, r, o, op, a) == binary_op_body(level + 4, "/"@, r),
        builtin_text(level, module, "opEq"@, r, o, op, a) == spaces(level + 4) + "let value = arg0.value == arg1.value;\n"@
            + spaces(level + 4) + " match value { true => "@ + r + "::True, false => "@ + r + "::False, }"@,
{
    lemma_num_names_distinct();
    reveal_strlit("let value = arg0.value + arg1.value;\n");
    reveal_strlit("let value = arg0.value - arg1.value;\n");
    reveal_strlit("let value = arg0.value * arg1.value;\n");
    reveal_strlit("let value = arg0.value / arg1.value;\n");
    reveal_strlit("let value = arg0.value ");
    reveal_strlit(" arg1.value;\n");
    reveal_strlit("+");
    reveal_strlit("-");
    reveal_strlit("*");
    reveal_strlit("/");
    assert("let value = arg0.value + arg1.value;\n"@ =~= "let value = arg0.value "@ + "+"@ + " arg1.value;\n"@);
    assert("let value = arg0.value - arg1.value;\n"@ =~= "let value = arg0.value "@ + "-"@ + " arg1.value;\n"@);
    assert("let value = arg0.value * arg1.value;\n"@ =~= "let value = arg0.value "@ + "*"@ + " arg1.value;\n"@);
    assert("let value = arg0.value / arg1.value;\n"@ =~= "let value = arg0.value "@ + "/"@ + " arg1.value;\n"@);
    assert(binary_op_body(level + 4, "+"@, r) =~= opadd_body_text(level + 4, r));
    assert(binary_op_body(level + 4, "-"@, r) =~= opsub_body_text(level + 4, r));
    assert(binary_op_body(level + 4, "*"@, r) =~= opmul_body_text(level + 4, r));
    assert(binary_op_body(level + 4, "/"@, r) =~= opdiv_body_text(level + 4, r));
}

/// The result constructor of a truth value of the language.
pub open spec fn bool_cell(b: bool) -> Seq<char> {
    if b {
        "::True"@
    } else {
        "::False"@
    }
}

/// The results of a two-argument truth function, in the order the generated
/// match lists them.
pub open spec fn truth_table(f: spec_fn(bool, bool) -> bool) -> Seq<Seq<char>> {
    seq![bool_cell(f(true, true)), bool_cell(f(true, false)), bool_cell(f(false, true)), bool_cell(f(false, false))]
}

/// `opAnd` of `Std.Ops` gives true exactly when both arguments are true, and
/// `opOr` exactly when one of them is.
pub proof fn lemma_bool_operators(level: int, r: Seq<char>, o: Seq<char>, op: Seq<char>, a: Seq<char>)
    ensures
        builtin_text(level, "Std.Ops"@, "opAnd"@, r, o, op, a) == bool_table_text(
            level + 4,
            r,
            truth_table(|x: bool, y: bool| x && y),
        ),
        builtin_text(level, "Std.Ops"@, "opOr"@, r, o, op, a) == bool_table_text(
            level + 4,
            r,
            truth_table(|x: bool, y: bool| x || y),
        ),
{
    lemma_modules_distinct();
    lemma_other_names_distinct();
    assert(truth_table(|x: bool, y: bool| x && y) =~= seq!["::True"@, "::False"@, "::False"@, "::False"@]);
    assert(truth_table(|x: bool, y: bool| x || y) =~= seq!["::True"@, "::True"@, "::True"@, "::False"@]);
}

/// `print` and `println` of `Std.Util.Basic` print their argument with the
/// same format and give back the empty record; they differ exactly in the
/// macro, `print!` writing no line break and `println!` one.
pub proof fn lemma_print_and_println(level: int, r: Seq<char>, o: Seq<char>, op: Seq<char>, a: Seq<char>)
    ensures
        ({
            let tail = "(\"{}\", arg0);\n"@ + spaces(level + 4) + r + " { }"@;
            &&& builtin_text(level, "Std.Util.Basic"@, "print"@, r, o, op, a) == spaces(level + 4) + "print!"@ + tail
            &&& builtin_text(level, "Std.Util.Basic"@, "println"@, r, o, op, a) == spaces(level + 4) + "println!"@
                + tail
        }),
{
    lemma_modules_distinct();
    lemma_other_names_distinct();
    reveal_strlit("print!(\"{}\", arg0);\n");
    reveal_strlit("println!(\"{}\", arg0);\n");
    reveal_strlit("print!");
    reveal_strlit("println!");
    reveal_strlit("(\"{}\", arg0);\n");
    assert("print!(\"{}\", arg0);\n"@ =~= "print!"@ + "(\"{}\", arg0);\n"@);
    assert("println!(\"{}\", arg0);\n"@ =~= "println!"@ + "(\"{}\", arg0);\n"@);
}

/// The names of the library functions on maps differ.
proof fn lemma_map_names_distinct()
    ensures
        "empty"@ != "insert"@,
        "empty"@ != "remove"@,
        "empty"@ != "get"@,
        "insert"@ != "remove"@,
        "insert"@ != "get"@,
        "remove"@ != "get"@,
{
    reveal_strlit("empty");
    reveal_strlit("insert");
    reveal_strlit("remove");
    reveal_strlit("get");
    assert("empty"@.len() != "insert"@.len());
    assert("empty"@.len() != "remove"@.len());
    assert("empty"@.len() != "get"@.len());
    assert("insert"@[0] != "remove"@[0]);
    assert("insert"@.len() != "get"@.len());
    assert("remove"@.len() != "get"@.len());
}

/// One arm of a match on a Rust ordering: the Rust ordering `rust` gives the
/// ordering `lang` of the language, whose type is `r`.
pub open spec fn ordering_arm(level: int, rust: Seq<char>, r: Seq<char>, lang: Seq<char>) -> Seq<char> {
    spaces(level) + " std::cmp::Ordering::"@ + rust + " => { "@ + r + "::"@ + lang + " }\n"@
}

/// Comparing numbers or strings with `cmp` turns each Rust ordering into the
/// ordering of the language of the same name; numbers and strings share the
/// body, and so do their equality tests.
pub proof fn lemma_orderings(level: int, r: Seq<char>, o: Seq<char>, op: Seq<char>, a: Seq<char>)
    ensures
        builtin_text(level, "Int"@, "cmp"@, r, o, op, a) == spaces(level + 4) + "match arg0.cmp(&arg1) {\n"@
            + ordering_arm(level + 8, "Less"@, r, "Less"@) + ordering_arm(level + 8, "Equal"@, r, "Equal"@)
            + ordering_arm(level + 8, "Greater"@, r, "Greater"@) + spaces(level + 4) + "}"@,
        builtin_text(level, "Float"@, "cmp"@, r, o, op, a) == builtin_text(level, "Int"@, "cmp"@, r, o, op, a),
        builtin_text(level, "String"@, "cmp"@, r, o, op, a) == builtin_text(level, "Int"@, "cmp"@, r, o, op, a),
        builtin_text(level, "Float"@, "opEq"@, r, o, op, a) == builtin_text(level, "Int"@, "opEq"@, r, o, op, a),
        builtin_text(level, "String"@, "opEq"@, r, o, op, a) == builtin_text(level, "Int"@, "opEq"@, r, o, op, a),
        builtin_text(level, "String"@, "partialCmp"@, r, o, op, a) == builtin_text(
            level,
            "Int"@,
            "partialCmp"@,
            r,
            o,
            op,
            a,
        ),
{
    lemma_modules_distinct();
    lemma_num_names_distinct();
    reveal_strlit("opAdd");
    reveal_strlit("opEq");
    reveal_strlit("partialCmp");
    reveal_strlit("cmp");
    assert("cmp"@ != "opAdd"@ && "cmp"@ != "opEq"@ && "cmp"@ != "partialCmp"@) by {
        assert("cmp"@.len() != "opAdd"@.len());
        assert("cmp"@[0] != "opEq"@[0]);
        assert("cmp"@.len() != "partialCmp"@.len());
    }
    assert("partialCmp"@ != "opAdd"@ && "partialCmp"@ != "opEq"@) by {
        assert("partialCmp"@.len() != "opAdd"@.len());
        assert("partialCmp"@.len() != "opEq"@.len());
    }
    assert("opEq"@ != "opAdd"@) by {
        assert("opEq"@.len() != "opAdd"@.len());
    }
    reveal_strlit(" std::cmp::Ordering::Less => { ");
    reveal_strlit(" std::cmp::Ordering::Equal => { ");
    reveal_strlit(" std::cmp::Ordering::Greater => { ");
    reveal_strlit("::Less }\n");
    reveal_strlit("::Equal }\n");
    reveal_strlit("::Greater }\n");
    reveal_strlit(" std::cmp::Ordering::");
    reveal_strlit(" => { ");
    reveal_strlit("::");
    reveal_strlit(" }\n");
    reveal_strlit("Less");
    reveal_strlit("Equal");
    reveal_strlit("Greater");
    assert(" std::cmp::Ordering::Less => { "@ =~= " std::cmp::Ordering::"@ + "Less"@ + " => { "@);
    assert(" std::cmp::Ordering::Equal => { "@ =~= " std::cmp::Ordering::"@ + "Equal"@ + " => { "@);
    assert(" std::cmp::Ordering::Greater => { "@ =~= " std::cmp::Ordering::"@ + "Greater"@ + " => { "@);
    assert("::Less }\n"@ =~= "::"@ + "Less"@ + " }\n"@);
    assert("::Equal }\n"@ =~= "::"@ + "Equal"@ + " }\n"@);
    assert("::Greater }\n"@ =~= "::"@ + "Greater"@ + " }\n"@);
    assert(cmp_body_text(level + 4, r) =~= spaces(level + 4) + "match arg0.cmp(&arg1) {\n"@ + ordering_arm(
        level + 8,
        "Less"@,
        r,
        "Less"@,
    ) + ordering_arm(level + 8, "Equal"@, r, "Equal"@) + ordering_arm(level + 8, "Greater"@, r, "Greater"@) + spaces(
        level + 4,
    ) + "}"@);
}

/// The body of a map update whose call on the map is `call`: the map is
/// updated in place and the value it held under the key, where there was
/// one, is handed back as an optional value together with the map.
pub open spec fn map_update_body(level: int, call: Seq<char>, r: Seq<char>, o: Seq<char>) -> Seq<char> {
    spaces(level) + "let mut arg0 = arg0;\n"@ + spaces(level) + "let value = match arg0.value."@ + call + " {\n"@
        + spaces(level + 4) + " Some(v) => "@ + o + "::Some(v),\n"@ + spaces(level + 4) + " None => "@ + o
        + "::None,\n"@ + spaces(level) + "};\n"@ + spaces(level) + r + " { field_0 : arg0, field_1: value }"@
}

/// `insert` and `remove` on maps are the same update with a different call:
/// `insert(arg1, arg2)` stores the value under the key, `remove(&arg1)` takes
/// the key out; `get` hands back a copy of the value under the key, where
/// there is one, and `empty` makes an empty map.
pub proof fn lemma_map_operations(level: int, r: Seq<char>, o: Seq<char>, op: Seq<char>, a: Seq<char>)
    ensures
        builtin_text(level, "Map"@, "insert"@, r, o, op, a) == map_update_body(level + 4, "insert(arg1, arg2)"@, r, op),
        builtin_text(level, "Map"@, "remove"@, r, o, op, a) == map_update_body(level + 4, "remove(&arg1)"@, r, op),
        builtin_text(level, "Map"@, "get"@, r, o, op, a) == spaces(level + 4) + "match arg0.value.get(&arg1) {\n"@
            + spaces(level + 8) + " Some(v) => "@ + r + "::Some(v.clone()),\n"@ + spaces(level + 8) + " None => "@ + r
            + "::None,\n"@ + spaces(level + 4) + "}"@,
        builtin_text(level, "Map"@, "empty"@, r, o, op, a) == spaces(level + 4)
            + "let value = std::collections::BTreeMap::new();\n"@ + spaces(level + 4) + r + " { value : value }"@,
{
    lemma_modules_distinct();
    lemma_map_names_distinct();
    reveal_strlit("let value = match arg0.value.insert(arg1, arg2) {\n");
    reveal_strlit("let value = match arg0.value.remove(&arg1) {\n");
    reveal_strlit("let value = match arg0.value.");
    reveal_strlit("insert(arg1, arg2)");
    reveal_strlit("remove(&arg1)");
    reveal_strlit(" {\n");
    assert("let value = match arg0.value.insert(arg1, arg2) {\n"@ =~= "let value = match arg0.value."@
        + "insert(arg1, arg2)"@ + " {\n"@);
    assert("let value = match arg0.value.remove(&arg1) {\n"@ =~= "let value = match arg0.value."@ + "remove(&arg1)"@
        + " {\n"@);
    assert(map_update_body(level + 4, "insert(arg1, arg2)"@, r, op) =~= map_update_text(
        level + 4,
        "let value = match arg0.value.insert(arg1, arg2) {\n"@,
        r,
        op,
    ));
    assert(map_update_body(level + 4, "remove(&arg1)"@, r, op) =~= map_update_text(
        level + 4,
        "let value = match arg0.value.remove(&arg1) {\n"@,
        r,
        op,
    ));
}

} // verus!
