use crate::ir::expr::ExprId;
use crate::ir::program::Program;
use crate::location::LocationId;
use crate::util::signed_decimal;
use crate::util::signed_decimal_string;
use crate::util::str_eq;
use crate::ir::type_format::join;
use crate::ir::type_format::join_strings;
use crate::ir::type_format::string_views;
use vstd::prelude::*;

verus! {

/// A value that the extern operations on integers, truth values and strings
/// read and give back.
#[derive(Debug, Clone)]
pub enum ExternValue {
    Int(i64),
    Bool(bool),
    String(String),
    /// The empty tuple.
    Unit,
}

/// What an extern call asks of the interpreter.
#[derive(Debug)]
pub enum ExternAction {
    /// Give back this value.
    Return(ExternValue),
    /// Print the first argument, followed by a line break where this says so,
    /// and give back the empty tuple.
    Print(bool),
    /// Report the message as an error at the location, and stop.
    AssertionFailed(String, LocationId),
    /// Show each item of the list that is the first argument, and give back
    /// [`list_show_text`] of their texts.
    ShowList,
}

/// An extern value as plain values.
pub enum ValueModel {
    Int(i64),
    Bool(bool),
    String(Seq<char>),
    Unit,
}

/// An extern action as plain values.
pub enum ActionModel {
    Return(ValueModel),
    Print(bool),
    AssertionFailed(Seq<char>, LocationId),
    ShowList,
}

impl ExternValue {
    pub open spec fn model(&self) -> ValueModel {
        match self {
            ExternValue::Int(i) => ValueModel::Int(*i),
            ExternValue::Bool(b) => ValueModel::Bool(*b),
            ExternValue::String(s) => ValueModel::String(s@),
            ExternValue::Unit => ValueModel::Unit,
        }
    }
}

impl ExternAction {
    pub open spec fn model(&self) -> ActionModel {
        match self {
            ExternAction::Return(v) => ActionModel::Return(v.model()),
            ExternAction::Print(newline) => ActionModel::Print(*newline),
            ExternAction::AssertionFailed(m, l) => ActionModel::AssertionFailed(m@, *l),
            ExternAction::ShowList => ActionModel::ShowList,
        }
    }
}

/// The first two arguments are integers.
pub open spec fn two_ints(a: Seq<ExternValue>) -> bool {
    a.len() >= 2 && a[0] is Int && a[1] is Int
}

/// The first two arguments are truth values.
pub open spec fn two_bools(a: Seq<ExternValue>) -> bool {
    a.len() >= 2 && a[0] is Bool && a[1] is Bool
}

/// The first two arguments are strings.
pub open spec fn two_strings(a: Seq<ExternValue>) -> bool {
    a.len() >= 2 && a[0] is String && a[1] is String
}

/// An integer result, where it fits in 64 bits.
pub open spec fn int_result(x: int) -> Option<ActionModel> {
    if i64::MIN <= x <= i64::MAX {
        Some(ActionModel::Return(ValueModel::Int(x as i64)))
    } else {
        None
    }
}

/// A truth value result.
pub open spec fn bool_result(b: bool) -> Option<ActionModel> {
    Some(ActionModel::Return(ValueModel::Bool(b)))
}

/// The location of the expression being evaluated, where there is one.
pub open spec fn current_location(program: Program, current_expr: Option<ExprId>) -> Option<LocationId> {
    match current_expr {
        Some(e) => Some(program.exprs.items@[e.id].location_id),
        None => None,
    }
}

/// What the extern operation `name` of `module` (for the class instance
/// `instance`, where it has one) does with the arguments `a`, among those on
/// integers, truth values and strings, the assertion, printing and showing
/// integers and lists; `None` for the others. `prelude` is the name of the
/// prelude module; `loc` is the location of the expression being evaluated.
pub open spec fn extern_action(
    prelude: Seq<char>,
    module: Seq<char>,
    name: Seq<char>,
    instance: Option<Seq<char>>,
    a: Seq<ExternValue>,
    loc: Option<LocationId>,
) -> Option<ActionModel> {
    if module == "Std.Util"@ && name == "assert"@ {
        if a.len() >= 1 && a[0] is Bool {
            if a[0]->Bool_0 {
                Some(ActionModel::Return(ValueModel::Unit))
            } else {
                match loc {
                    Some(l) => Some(ActionModel::AssertionFailed("Assertion failed"@, l)),
                    None => None,
                }
            }
        } else {
            None
        }
    } else if module != prelude {
        None
    } else if name == "print"@ {
        Some(ActionModel::Print(false))
    } else if name == "println"@ {
        Some(ActionModel::Print(true))
    } else if name == "op_lessthan"@ {
        if two_ints(a) {
            bool_result(a[0]->Int_0 < a[1]->Int_0)
        } else {
            None
        }
    } else {
        match instance {
            None => None,
            Some(i) => instance_action(name, i, a),
        }
    }
}

/// What the operation `name` of the prelude does for the class instance `i`.
pub open spec fn instance_action(name: Seq<char>, i: Seq<char>, a: Seq<ExternValue>) -> Option<ActionModel> {
    if name == "opAdd"@ && i == "IntAdd"@ && two_ints(a) {
        int_result(a[0]->Int_0 + a[1]->Int_0)
    } else if name == "opAdd"@ && i == "StringAdd"@ && two_strings(a) {
        Some(ActionModel::Return(ValueModel::String(a[0]->String_0@ + a[1]->String_0@)))
    } else if name == "opSub"@ && i == "IntSub"@ && two_ints(a) {
        int_result(a[0]->Int_0 - a[1]->Int_0)
    } else if name == "opMul"@ && i == "IntMul"@ && two_ints(a) {
        int_result(a[0]->Int_0 * a[1]->Int_0)
    } else if name == "opDiv"@ && i == "IntDiv"@ && two_ints(a) {
        match a[0]->Int_0.checked_div(a[1]->Int_0) {
            Some(q) => Some(ActionModel::Return(ValueModel::Int(q))),
            None => None,
        }
    } else if name == "opEq"@ && i == "BoolEq"@ && two_bools(a) {
        bool_result(a[0]->Bool_0 == a[1]->Bool_0)
    } else if name == "opEq"@ && i == "IntEq"@ && two_ints(a) {
        bool_result(a[0]->Int_0 == a[1]->Int_0)
    } else if name == "opEq"@ && i == "StringEq"@ && two_strings(a) {
        bool_result(a[0]->String_0@ == a[1]->String_0@)
    } else if name == "opNotEq"@ && i == "BoolEq"@ && two_bools(a) {
        bool_result(a[0]->Bool_0 != a[1]->Bool_0)
    } else if name == "opLessThan"@ && i == "IntLessThan"@ && two_ints(a) {
        bool_result(a[0]->Int_0 < a[1]->Int_0)
    } else if name == "show"@ && i == "IntShow"@ && a.len() >= 1 && a[0] is Int {
        Some(ActionModel::Return(ValueModel::String(signed_decimal(a[0]->Int_0 as int))))
    } else if name == "show"@ && i == "ListShow"@ {
        Some(ActionModel::ShowList)
    } else {
        None
    }
}

/// The text of a shown list: the texts of its items, comma-separated, in
/// round brackets.
pub open spec fn list_show(items: Seq<Seq<char>>) -> Seq<char> {
    "("@ + join(items, ", "@) + ")"@
}

/// Finishes showing a list from the texts of its items (see [`list_show`]).
pub fn list_show_text(shown: &Vec<String>) -> (r: String)
    ensures
        r@ == list_show(string_views(shown@)),
{
    let joined = join_strings(shown, ", ");
    let mut r = String::from_str("(");
    r.append(joined.as_str());
    r.append(")");
    r
}

/// The integer argument at `i`.
fn int_at(a: &Vec<ExternValue>, i: usize) -> (r: i64)
    requires
        i < a@.len(),
        a@[i as int] is Int,
    ensures
        r == a@[i as int]->Int_0,
{
    match &a[i] {
        ExternValue::Int(v) => *v,
        _ => {
            proof {
                assert(false);
            }
            0
        },
    }
}

/// The truth value argument at `i`.
fn bool_at(a: &Vec<ExternValue>, i: usize) -> (r: bool)
    requires
        i < a@.len(),
        a@[i as int] is Bool,
    ensures
        r == a@[i as int]->Bool_0,
{
    match &a[i] {
        ExternValue::Bool(v) => *v,
        _ => {
            proof {
                assert(false);
            }
            false
        },
    }
}

/// The string argument at `i`.
fn string_at(a: &Vec<ExternValue>, i: usize) -> (r: String)
    requires
        i < a@.len(),
        a@[i as int] is String,
    ensures
        r@ == a@[i as int]->String_0@,
{
    match &a[i] {
        ExternValue::String(v) => v.clone(),
        _ => {
            proof {
                assert(false);
            }
            String::new()
        },
    }
}

/// The names of the operations differ from each other, and so do the
/// instances of one operation.
proof fn lemma_names_distinct()
    ensures
        "opAdd"@ != "opSub"@,
        "opAdd"@ != "opMul"@,
        "opAdd"@ != "opDiv"@,
        "opAdd"@ != "opEq"@,
        "opAdd"@ != "opNotEq"@,
        "opAdd"@ != "opLessThan"@,
        "opSub"@ != "opMul"@,
        "opSub"@ != "opDiv"@,
        "opSub"@ != "opEq"@,
        "opSub"@ != "opNotEq"@,
        "opSub"@ != "opLessThan"@,
        "opMul"@ != "opDiv"@,
        "opMul"@ != "opEq"@,
        "opMul"@ != "opNotEq"@,
        "opMul"@ != "opLessThan"@,
        "opDiv"@ != "opEq"@,
        "opDiv"@ != "opNotEq"@,
        "opDiv"@ != "opLessThan"@,
        "opEq"@ != "opNotEq"@,
        "opEq"@ != "opLessThan"@,
        "opNotEq"@ != "opLessThan"@,
        "IntAdd"@ != "StringAdd"@,
        "BoolEq"@ != "IntEq"@,
        "BoolEq"@ != "StringEq"@,
        "IntEq"@ != "StringEq"@,
        "show"@ != "opEq"@,
        "show"@ != "opAdd"@,
        "show"@ != "opSub"@,
        "show"@ != "opMul"@,
        "show"@ != "opDiv"@,
        "show"@ != "opNotEq"@,
        "show"@ != "opLessThan"@,
        "IntShow"@ != "ListShow"@,
{
    reveal_strlit("opAdd");
    reveal_strlit("opSub");
    reveal_strlit("opMul");
    reveal_strlit("opDiv");
    reveal_strlit("opEq");
    reveal_strlit("opNotEq");
    reveal_strlit("opLessThan");
    reveal_strlit("IntAdd");
    reveal_strlit("StringAdd");
    reveal_strlit("BoolEq");
    reveal_strlit("IntEq");
    reveal_strlit("StringEq");
    reveal_strlit("show");
    reveal_strlit("IntShow");
    reveal_strlit("ListShow");
    assert("show"@[0] != "opEq"@[0]);
    assert("show"@.len() != "opAdd"@.len());
    assert("show"@.len() != "opNotEq"@.len());
    assert("show"@.len() != "opLessThan"@.len());
    assert("IntShow"@.len() != "ListShow"@.len());
    assert("opAdd"@[2] != "opSub"@[2]);
    assert("opAdd"@[2] != "opMul"@[2]);
    assert("opAdd"@[2] != "opDiv"@[2]);
    assert("opSub"@[2] != "opMul"@[2]);
    assert("opSub"@[2] != "opDiv"@[2]);
    assert("opMul"@[2] != "opDiv"@[2]);
    assert("opAdd"@.len() != "opEq"@.len());
    assert("opAdd"@.len() != "opNotEq"@.len());
    assert("opAdd"@.len() != "opLessThan"@.len());
    assert("opEq"@.len() != "opNotEq"@.len());
    assert("opEq"@.len() != "opLessThan"@.len());
    assert("opNotEq"@.len() != "opLessThan"@.len());
    assert("IntAdd"@.len() != "StringAdd"@.len());
    assert("BoolEq"@.len() != "IntEq"@.len());
    assert("BoolEq"@.len() != "StringEq"@.len());
    assert("IntEq"@.len() != "StringEq"@.len());
}

/// Runs the extern operation `name` of `module` for the class instance
/// `instance` on the arguments `args` (see [`extern_action`]); `prelude` is
/// the name of the prelude module and `current_expr` the expression being
/// evaluated, at whose location a failed assertion is reported. The
/// operations on floats are not among these.
pub fn call_extern(
    prelude: &str,
    module: &str,
    name: &str,
    instance: &Option<String>,
    args: &Vec<ExternValue>,
    program: &Program,
    current_expr: Option<ExprId>,
) -> (r: ExternAction)
    requires
        current_expr matches Some(e) ==> program.has_expr(e),
        extern_action(
            prelude@,
            module@,
            name@,
            match instance {
                Some(s) => Some(s@),
                None => None,
            },
            args@,
            current_location(*program, current_expr),
        ) is Some,
    ensures
        Some(r.model()) == extern_action(
            prelude@,
            module@,
            name@,
            match instance {
                Some(s) => Some(s@),
                None => None,
            },
            args@,
            current_location(*program, current_expr),
        ),
{
    proof {
        lemma_names_distinct();
    }
    if str_eq(module, "Std.Util") && str_eq(name, "assert") {
        if bool_at(args, 0) {
            return ExternAction::Return(ExternValue::Unit);
        } else {
            match current_expr {
                Some(e) => {
                    let location_id = program.exprs.get(e.id).location_id;
                    return ExternAction::AssertionFailed(String::from_str("Assertion failed"), location_id);
                },
                None => {
                    proof {
                        assert(false);
                    }
                    return ExternAction::Return(ExternValue::Unit);
                },
            }
        }
    }
    if !str_eq(module, prelude) {
        proof {
            assert(false);
        }
        return ExternAction::Return(ExternValue::Unit);
    }
    if str_eq(name, "print") {
        return ExternAction::Print(false);
    }
    if str_eq(name, "println") {
        return ExternAction::Print(true);
    }
    if str_eq(name, "op_lessthan") {
        return ExternAction::Return(ExternValue::Bool(int_at(args, 0) < int_at(args, 1)));
    }
    let i = match instance {
        Some(s) => s.as_str(),
        None => {
            proof {
                assert(false);
            }
            ""
        },
    };
    if str_eq(name, "opAdd") && str_eq(i, "IntAdd") {
        ExternAction::Return(ExternValue::Int(int_at(args, 0) + int_at(args, 1)))
    } else if str_eq(name, "opAdd") && str_eq(i, "StringAdd") {
        let mut s = string_at(args, 0);
        let t = string_at(args, 1);
        s.append(t.as_str());
        ExternAction::Return(ExternValue::String(s))
    } else if str_eq(name, "opSub") && str_eq(i, "IntSub") {
        ExternAction::Return(ExternValue::Int(int_at(args, 0) - int_at(args, 1)))
    } else if str_eq(name, "opMul") && str_eq(i, "IntMul") {
        ExternAction::Return(ExternValue::Int(int_at(args, 0) * int_at(args, 1)))
    } else if str_eq(name, "opDiv") && str_eq(i, "IntDiv") {
        let l = int_at(args, 0);
        let r = int_at(args, 1);
        match l.checked_div(r) {
            Some(q) => ExternAction::Return(ExternValue::Int(q)),
            None => {
                proof {
                    assert(false);
                }
                ExternAction::Return(ExternValue::Unit)
            },
        }
    } else if str_eq(name, "opEq") && str_eq(i, "BoolEq") {
        ExternAction::Return(ExternValue::Bool(bool_at(args, 0) == bool_at(args, 1)))
    } else if str_eq(name, "opEq") && str_eq(i, "IntEq") {
        ExternAction::Return(ExternValue::Bool(int_at(args, 0) == int_at(args, 1)))
    } else if str_eq(name, "opEq") && str_eq(i, "StringEq") {
        let l = string_at(args, 0);
        let r = string_at(args, 1);
        ExternAction::Return(ExternValue::Bool(str_eq(l.as_str(), r.as_str())))
    } else if str_eq(name, "opNotEq") && str_eq(i, "BoolEq") {
        ExternAction::Return(ExternValue::Bool(bool_at(args, 0) != bool_at(args, 1)))
    } else if str_eq(name, "show") && str_eq(i, "IntShow") {
        ExternAction::Return(ExternValue::String(signed_decimal_string(int_at(args, 0))))
    } else if str_eq(name, "show") && str_eq(i, "ListShow") {
        ExternAction::ShowList
    } else {
        ExternAction::Return(ExternValue::Bool(int_at(args, 0) < int_at(args, 1)))
    }
}

/// The names dispatched before the class instances differ from the names of
/// the instance operations.
proof fn lemma_top_names_distinct()
    ensures
        "opAdd"@ != "assert"@,
        "opAdd"@ != "print"@,
        "opAdd"@ != "println"@,
        "opAdd"@ != "op_lessthan"@,
        "opSub"@ != "assert"@,
        "opSub"@ != "print"@,
        "opSub"@ != "println"@,
        "opSub"@ != "op_lessthan"@,
        "opMul"@ != "assert"@,
        "opMul"@ != "print"@,
        "opMul"@ != "println"@,
        "opMul"@ != "op_lessthan"@,
        "opDiv"@ != "assert"@,
        "opDiv"@ != "print"@,
        "opDiv"@ != "println"@,
        "opDiv"@ != "op_lessthan"@,
        "opEq"@ != "assert"@,
        "opEq"@ != "print"@,
        "opEq"@ != "println"@,
        "opEq"@ != "op_lessthan"@,
        "opNotEq"@ != "assert"@,
        "opNotEq"@ != "print"@,
        "opNotEq"@ != "println"@,
        "opNotEq"@ != "op_lessthan"@,
        "opLessThan"@ != "assert"@,
        "opLessThan"@ != "print"@,
        "opLessThan"@ != "println"@,
        "opLessThan"@ != "op_lessthan"@,
        "show"@ != "assert"@,
        "show"@ != "print"@,
        "show"@ != "println"@,
        "show"@ != "op_lessthan"@,
{
    reveal_strlit("opAdd");
    reveal_strlit("opSub");
    reveal_strlit("opMul");
    reveal_strlit("opDiv");
    reveal_strlit("opEq");
    reveal_strlit("opNotEq");
    reveal_strlit("opLessThan");
    reveal_strlit("show");
    reveal_strlit("assert");
    reveal_strlit("print");
    reveal_strlit("println");
    reveal_strlit("op_lessthan");
    assert("opAdd"@.len() != "assert"@.len());
    assert("opAdd"@[0] != "print"@[0]);
    assert("opAdd"@.len() != "println"@.len());
    assert("opAdd"@.len() != "op_lessthan"@.len());
    assert("opSub"@.len() != "assert"@.len());
    assert("opSub"@[0] != "print"@[0]);
    assert("opSub"@.len() != "println"@.len());
    assert("opSub"@.len() != "op_lessthan"@.len());
    assert("opMul"@.len() != "assert"@.len());
    assert("opMul"@[0] != "print"@[0]);
    assert("opMul"@.len() != "println"@.len());
    assert("opMul"@.len() != "op_lessthan"@.len());
    assert("opDiv"@.len() != "assert"@.len());
    assert("opDiv"@[0] != "print"@[0]);
    assert("opDiv"@.len() != "println"@.len());
    assert("opDiv"@.len() != "op_lessthan"@.len());
    assert("opEq"@.len() != "assert"@.len());
    assert("opEq"@.len() != "print"@.len());
    assert("opEq"@.len() != "println"@.len());
    assert("opEq"@.len() != "op_lessthan"@.len());
    assert("opNotEq"@.len() != "assert"@.len());
    assert("opNotEq"@.len() != "print"@.len());
    assert("opNotEq"@[0] != "println"@[0]);
    assert("opNotEq"@.len() != "op_lessthan"@.len());
    assert("opLessThan"@.len() != "assert"@.len());
    assert("opLessThan"@.len() != "print"@.len());
    assert("opLessThan"@.len() != "println"@.len());
    assert("opLessThan"@.len() != "op_lessthan"@.len());
    assert("show"@.len() != "assert"@.len());
    assert("show"@.len() != "print"@.len());
    assert("show"@.len() != "println"@.len());
    assert("show"@.len() != "op_lessthan"@.len());
}

/// The quotient of `x` by `y` rounded toward zero, as Rust's integer division
/// gives it.
pub open spec fn quotient_toward_zero(x: int, y: int) -> int {
    let ax: int = if x < 0 { -x } else { x };
    let ay: int = if y < 0 { -y } else { y };
    let q: int = ax / ay;
    if (x >= 0) == (y >= 0) {
        q
    } else {
        -q
    }
}

/// The prelude's integer operations compute the arithmetic of the language
/// on 64-bit integers: a sum, difference or product that does not fit has no
/// result (the interpreter stops), division rounds toward zero and has no
/// result for a zero divisor or the one quotient that does not fit, equality
/// holds exactly for equal numbers and the comparison is the order of the
/// integers.
pub proof fn lemma_int_operations(prelude: Seq<char>, a: Seq<ExternValue>, loc: Option<LocationId>, inst: Option<Seq<char>>)
    requires
        two_ints(a),
    ensures
        ({
            let x = a[0]->Int_0 as int;
            let y = a[1]->Int_0 as int;
            &&& extern_action(prelude, prelude, "opAdd"@, Some("IntAdd"@), a, loc) == if i64::MIN <= x + y <= i64::MAX {
                Some(ActionModel::Return(ValueModel::Int((x + y) as i64)))
            } else {
                None
            }
            &&& extern_action(prelude, prelude, "opSub"@, Some("IntSub"@), a, loc) == if i64::MIN <= x - y <= i64::MAX {
                Some(ActionModel::Return(ValueModel::Int((x - y) as i64)))
            } else {
                None
            }
            &&& extern_action(prelude, prelude, "opMul"@, Some("IntMul"@), a, loc) == if i64::MIN <= x * y <= i64::MAX {
                Some(ActionModel::Return(ValueModel::Int((x * y) as i64)))
            } else {
                None
            }
            &&& extern_action(prelude, prelude, "opDiv"@, Some("IntDiv"@), a, loc) == if y == 0 || (x == i64::MIN && y
                == -1) {
                None
            } else {
                Some(ActionModel::Return(ValueModel::Int(quotient_toward_zero(x, y) as i64)))
            }
            &&& extern_action(prelude, prelude, "opEq"@, Some("IntEq"@), a, loc) == Some(
                ActionModel::Return(ValueModel::Bool(x == y)),
            )
            &&& extern_action(prelude, prelude, "opLessThan"@, Some("IntLessThan"@), a, loc) == Some(
                ActionModel::Return(ValueModel::Bool(x < y)),
            )
            &&& extern_action(prelude, prelude, "op_lessthan"@, inst, a, loc) == Some(
                ActionModel::Return(ValueModel::Bool(x < y)),
            )
        }),
{
    lemma_names_distinct();
    lemma_top_names_distinct();
    reveal_strlit("IntSub");
    reveal_strlit("IntMul");
    reveal_strlit("IntDiv");
    reveal_strlit("IntLessThan");
    reveal_strlit("op_lessthan");
    reveal_strlit("assert");
    reveal_strlit("print");
    reveal_strlit("println");
    assert("op_lessthan"@ != "assert"@) by {
        assert("op_lessthan"@.len() != "assert"@.len());
    }
    assert("op_lessthan"@ != "print"@) by {
        assert("op_lessthan"@.len() != "print"@.len());
    }
    assert("op_lessthan"@ != "println"@) by {
        assert("op_lessthan"@.len() != "println"@.len());
    }
    let x = a[0]->Int_0 as int;
    let y = a[1]->Int_0 as int;
    if y != 0 {
        let ax: int = if x < 0 { -x } else { x };
        let ay: int = if y < 0 { -y } else { y };
        assert(0 <= ax / ay <= ax) by (nonlinear_arith)
            requires
                ay >= 1,
                ax >= 0,
        ;
        if ay >= 2 {
            assert(ax / ay <= ax / 2) by (nonlinear_arith)
                requires
                    ay >= 2,
                    ax >= 0,
            ;
        }
        if ay == 1 {
            assert(ax / ay == ax) by (nonlinear_arith)
                requires
                    ay == 1,
            ;
        }
        let c = a[0]->Int_0.checked_div(a[1]->Int_0);
        if x == i64::MIN && y == -1 {
            assert(c is None);
        } else {
            assert(c == Some(quotient_toward_zero(x, y) as i64));
        }
    }
}

/// The prelude's operations on truth values and strings: equality holds
/// exactly for equal values, inequality exactly for different truth values,
/// and adding strings joins them.
pub proof fn lemma_bool_string_operations(prelude: Seq<char>, a: Seq<ExternValue>, loc: Option<LocationId>)
    ensures
        two_bools(a) ==> extern_action(prelude, prelude, "opEq"@, Some("BoolEq"@), a, loc) == Some(
            ActionModel::Return(ValueModel::Bool(a[0]->Bool_0 == a[1]->Bool_0)),
        ),
        two_bools(a) ==> extern_action(prelude, prelude, "opNotEq"@, Some("BoolEq"@), a, loc) == Some(
            ActionModel::Return(ValueModel::Bool(a[0]->Bool_0 != a[1]->Bool_0)),
        ),
        two_strings(a) ==> extern_action(prelude, prelude, "opEq"@, Some("StringEq"@), a, loc) == Some(
            ActionModel::Return(ValueModel::Bool(a[0]->String_0@ == a[1]->String_0@)),
        ),
        two_strings(a) ==> extern_action(prelude, prelude, "opAdd"@, Some("StringAdd"@), a, loc) == Some(
            ActionModel::Return(ValueModel::String(a[0]->String_0@ + a[1]->String_0@)),
        ),
        a.len() >= 1 && a[0] is Int ==> extern_action(prelude, prelude, "show"@, Some("IntShow"@), a, loc) == Some(
            ActionModel::Return(ValueModel::String(signed_decimal(a[0]->Int_0 as int))),
        ),
{
    lemma_names_distinct();
    lemma_top_names_distinct();
    reveal_strlit("IntShow");
    reveal_strlit("ListShow");
    reveal_strlit("IntLessThan");
}

/// The assertion of `Std.Util` gives back the empty tuple when it holds and
/// asks for "Assertion failed" to be reported at the current expression when
/// it does not; `print` and `println` print, the second with a line break.
pub proof fn lemma_assert_and_print(prelude: Seq<char>, a: Seq<ExternValue>, loc: Option<LocationId>, inst: Option<Seq<char>>)
    ensures
        a.len() >= 1 && a[0] is Bool && a[0]->Bool_0 ==> extern_action(prelude, "Std.Util"@, "assert"@, inst, a, loc)
            == Some(ActionModel::Return(ValueModel::Unit)),
        a.len() >= 1 && a[0] is Bool && !a[0]->Bool_0 && loc is Some ==> extern_action(
            prelude,
            "Std.Util"@,
            "assert"@,
            inst,
            a,
            loc,
        ) == Some(ActionModel::AssertionFailed("Assertion failed"@, loc->0)),
        prelude != "Std.Util"@ ==> extern_action(prelude, prelude, "print"@, inst, a, loc) == Some(ActionModel::Print(false)),
        prelude != "Std.Util"@ ==> extern_action(prelude, prelude, "println"@, inst, a, loc) == Some(ActionModel::Print(true)),
{
    reveal_strlit("print");
    reveal_strlit("println");
    reveal_strlit("assert");
    assert("print"@ != "assert"@) by {
        assert("print"@.len() != "assert"@.len());
    }
    assert("println"@ != "assert"@) by {
        assert("println"@.len() != "assert"@.len());
    }
    assert("println"@ != "print"@) by {
        assert("println"@.len() != "print"@.len());
    }
}

} // verus!
