use vstd::prelude::*;

verus! {

/// The operators of the language that stand for library functions.
#[derive(Debug, Clone, Copy, PartialEq, Eq, PartialOrd, Ord, Structural)]
pub enum BuiltinOperator {
    Add,
    Sub,
    Mul,
    Div,
    PipeForward,
    And,
    Or,
    Equals,
    NotEquals,
    LessThan,
    GreaterThan,
    LessOrEqualThan,
    GreaterOrEqualThan,
    Not,
    Minus,
    Bind,
    Arrow,
}

/// The qualified name of the library function that an operator stands for,
/// for the operators that stand for one.
pub open spec fn operator_function_name(op: BuiltinOperator) -> Option<Seq<char>> {
    match op {
        BuiltinOperator::Add => Some("Std.Ops.opAdd"@),
        BuiltinOperator::Sub => Some("Std.Ops.opSub"@),
        BuiltinOperator::Mul => Some("Std.Ops.opMul"@),
        BuiltinOperator::Div => Some("Std.Ops.opDiv"@),
        BuiltinOperator::Equals => Some("Std.Ops.opEq"@),
        BuiltinOperator::NotEquals => Some("Std.Ops.opNotEq"@),
        BuiltinOperator::LessThan => Some("Std.Ops.opLessThan"@),
        BuiltinOperator::LessOrEqualThan => Some("Std.Ops.opLessEqual"@),
        BuiltinOperator::GreaterThan => Some("Std.Ops.opGreaterThan"@),
        BuiltinOperator::GreaterOrEqualThan => Some("Std.Ops.opGreaterEqual"@),
        BuiltinOperator::And => Some("Std.Ops.opAnd"@),
        BuiltinOperator::Or => Some("Std.Ops.opOr"@),
        BuiltinOperator::Not => Some("Std.Ops.opNot"@),
        _ => None,
    }
}

impl BuiltinOperator {
    /// Whether the operator stands for a library function.
    pub open spec fn has_function_name(&self) -> bool {
        operator_function_name(*self) is Some
    }

    /// The qualified name of the library function behind the operator.
    pub fn get_function_name(&self) -> (r: String)
        requires
            self.has_function_name(),
        ensures
            Some(r@) == operator_function_name(*self),
    {
        match self {
            BuiltinOperator::Add => String::from_str("Std.Ops.opAdd"),
            BuiltinOperator::Sub => String::from_str("Std.Ops.opSub"),
            BuiltinOperator::Mul => String::from_str("Std.Ops.opMul"),
            BuiltinOperator::Div => String::from_str("Std.Ops.opDiv"),
            BuiltinOperator::Equals => String::from_str("Std.Ops.opEq"),
            BuiltinOperator::NotEquals => String::from_str("Std.Ops.opNotEq"),
            BuiltinOperator::LessThan => String::from_str("Std.Ops.opLessThan"),
            BuiltinOperator::LessOrEqualThan => String::from_str("Std.Ops.opLessEqual"),
            BuiltinOperator::GreaterThan => String::from_str("Std.Ops.opGreaterThan"),
            BuiltinOperator::GreaterOrEqualThan => String::from_str("Std.Ops.opGreaterEqual"),
            BuiltinOperator::And => String::from_str("Std.Ops.opAnd"),
            BuiltinOperator::Or => String::from_str("Std.Ops.opOr"),
            BuiltinOperator::Not => String::from_str("Std.Ops.opNot"),
            _ => String::new(),
        }
    }
}

pub const MAIN_MODULE: &'static str = "Main";

pub const MAIN_FUNCTION: &'static str = "main";

pub const BOOL_MODULE_NAME: &'static str = "Bool";

pub const BOOL_TYPE_NAME: &'static str = "Bool";

pub const INT_MODULE_NAME: &'static str = "Int";

pub const INT_TYPE_NAME: &'static str = "Int";

pub const FLOAT_MODULE_NAME: &'static str = "Float";

pub const FLOAT_TYPE_NAME: &'static str = "Float";

pub const OPTION_MODULE_NAME: &'static str = "Option";

pub const OPTION_TYPE_NAME: &'static str = "Option";

pub const RESULT_MODULE_NAME: &'static str = "Result";

pub const RESULT_TYPE_NAME: &'static str = "Result";

pub const MAP_MODULE_NAME: &'static str = "Map";

pub const MAP_TYPE_NAME: &'static str = "Map";

pub const ORDERING_MODULE_NAME: &'static str = "Ordering";

pub const ORDERING_TYPE_NAME: &'static str = "Ordering";

pub const STRING_MODULE_NAME: &'static str = "String";

pub const STRING_TYPE_NAME: &'static str = "String";

pub const LIST_MODULE_NAME: &'static str = "List";

pub const LIST_TYPE_NAME: &'static str = "List";

/// The qualified name of the list type: its module, a dot, and its name.
pub fn get_qualified_list_type_name() -> (r: String)
    ensures
        r@ == LIST_MODULE_NAME@ + "."@ + LIST_TYPE_NAME@,
{
    let mut s = String::from_str(LIST_MODULE_NAME);
    s.append(".");
    s.append(LIST_TYPE_NAME);
    s
}

/// Different operators stand for different library functions, all of them
/// functions of `Std.Ops`.
pub proof fn lemma_operator_names(a: BuiltinOperator, b: BuiltinOperator)
    ensures
        operator_function_name(a) is Some && operator_function_name(a) == operator_function_name(b) ==> a == b,
        operator_function_name(a) matches Some(n) ==> n.len() > 8 && n.subrange(0, 8) == "Std.Ops."@,
{
    reveal_strlit("Std.Ops.opAdd");
    reveal_strlit("Std.Ops.opSub");
    reveal_strlit("Std.Ops.opMul");
    reveal_strlit("Std.Ops.opDiv");
    reveal_strlit("Std.Ops.opEq");
    reveal_strlit("Std.Ops.opNotEq");
    reveal_strlit("Std.Ops.opLessThan");
    reveal_strlit("Std.Ops.opLessEqual");
    reveal_strlit("Std.Ops.opGreaterThan");
    reveal_strlit("Std.Ops.opGreaterEqual");
    reveal_strlit("Std.Ops.opAnd");
    reveal_strlit("Std.Ops.opOr");
    reveal_strlit("Std.Ops.opNot");
    reveal_strlit("Std.Ops.");
    assert("Std.Ops.opAdd"@[10] != "Std.Ops.opSub"@[10]);
    assert("Std.Ops.opAdd"@[10] != "Std.Ops.opMul"@[10]);
    assert("Std.Ops.opAdd"@[10] != "Std.Ops.opDiv"@[10]);
    assert("Std.Ops.opAdd"@.len() != "Std.Ops.opEq"@.len());
    assert("Std.Ops.opAdd"@.len() != "Std.Ops.opNotEq"@.len());
    assert("Std.Ops.opAdd"@.len() != "Std.Ops.opLessThan"@.len());
    assert("Std.Ops.opAdd"@.len() != "Std.Ops.opLessEqual"@.len());
    assert("Std.Ops.opAdd"@.len() != "Std.Ops.opGreaterThan"@.len());
    assert("Std.Ops.opAdd"@.len() != "Std.Ops.opGreaterEqual"@.len());
    assert("Std.Ops.opAdd"@[11] != "Std.Ops.opAnd"@[11]);
    assert("Std.Ops.opAdd"@.len() != "Std.Ops.opOr"@.len());
    assert("Std.Ops.opAdd"@[10] != "Std.Ops.opNot"@[10]);
    assert("Std.Ops.opSub"@[10] != "Std.Ops.opMul"@[10]);
    assert("Std.Ops.opSub"@[10] != "Std.Ops.opDiv"@[10]);
    assert("Std.Ops.opSub"@.len() != "Std.Ops.opEq"@.len());
    assert("Std.Ops.opSub"@.len() != "Std.Ops.opNotEq"@.len());
    assert("Std.Ops.opSub"@.len() != "Std.Ops.opLessThan"@.len());
    assert("Std.Ops.opSub"@.len() != "Std.Ops.opLessEqual"@.len());
    assert("Std.Ops.opSub"@.len() != "Std.Ops.opGreaterThan"@.len());
    assert("Std.Ops.opSub"@.len() != "Std.Ops.opGreaterEqual"@.len());
    assert("Std.Ops.opSub"@[10] != "Std.Ops.opAnd"@[10]);
    assert("Std.Ops.opSub"@.len() != "Std.Ops.opOr"@.len());
    assert("Std.Ops.opSub"@[10] != "Std.Ops.opNot"@[10]);
    assert("Std.Ops.opMul"@[10] != "Std.Ops.opDiv"@[10]);
    assert("Std.Ops.opMul"@.len() != "Std.Ops.opEq"@.len());
    assert("Std.Ops.opMul"@.len() != "Std.Ops.opNotEq"@.len());
    assert("Std.Ops.opMul"@.len() != "Std.Ops.opLessThan"@.len());
    assert("Std.Ops.opMul"@.len() != "Std.Ops.opLessEqual"@.len());
    assert("Std.Ops.opMul"@.len() != "Std.Ops.opGreaterThan"@.len());
    assert("Std.Ops.opMul"@.len() != "Std.Ops.opGreaterEqual"@.len());
    assert("Std.Ops.opMul"@[10] != "Std.Ops.opAnd"@[10]);
    assert("Std.Ops.opMul"@.len() != "Std.Ops.opOr"@.len());
    assert("Std.Ops.opMul"@[10] != "Std.Ops.opNot"@[10]);
    assert("Std.Ops.opDiv"@.len() != "Std.Ops.opEq"@.len());
    assert("Std.Ops.opDiv"@.len() != "Std.Ops.opNotEq"@.len());
    assert("Std.Ops.opDiv"@.len() != "Std.Ops.opLessThan"@.len());
    assert("Std.Ops.opDiv"@.len() != "Std.Ops.opLessEqual"@.len());
    assert("Std.Ops.opDiv"@.len() != "Std.Ops.opGreaterThan"@.len());
    assert("Std.Ops.opDiv"@.len() != "Std.Ops.opGreaterEqual"@.len());
    assert("Std.Ops.opDiv"@[10] != "Std.Ops.opAnd"@[10]);
    assert("Std.Ops.opDiv"@.len() != "Std.Ops.opOr"@.len());
    assert("Std.Ops.opDiv"@[10] != "Std.Ops.opNot"@[10]);
    assert("Std.Ops.opEq"@.len() != "Std.Ops.opNotEq"@.len());
    assert("Std.Ops.opEq"@.len() != "Std.Ops.opLessThan"@.len());
    assert("Std.Ops.opEq"@.len() != "Std.Ops.opLessEqual"@.len());
    assert("Std.Ops.opEq"@.len() != "Std.Ops.opGreaterThan"@.len());
    assert("Std.Ops.opEq"@.len() != "Std.Ops.opGreaterEqual"@.len());
    assert("Std.Ops.opEq"@.len() != "Std.Ops.opAnd"@.len());
    assert("Std.Ops.opEq"@[10] != "Std.Ops.opOr"@[10]);
    assert("Std.Ops.opEq"@.len() != "Std.Ops.opNot"@.len());
    assert("Std.Ops.opNotEq"@.len() != "Std.Ops.opLessThan"@.len());
    assert("Std.Ops.opNotEq"@.len() != "Std.Ops.opLessEqual"@.len());
    assert("Std.Ops.opNotEq"@.len() != "Std.Ops.opGreaterThan"@.len());
    assert("Std.Ops.opNotEq"@.len() != "Std.Ops.opGreaterEqual"@.len());
    assert("Std.Ops.opNotEq"@.len() != "Std.Ops.opAnd"@.len());
    assert("Std.Ops.opNotEq"@.len() != "Std.Ops.opOr"@.len());
    assert("Std.Ops.opNotEq"@.len() != "Std.Ops.opNot"@.len());
    assert("Std.Ops.opLessThan"@.len() != "Std.Ops.opLessEqual"@.len());
    assert("Std.Ops.opLessThan"@.len() != "Std.Ops.opGreaterThan"@.len());
    assert("Std.Ops.opLessThan"@.len() != "Std.Ops.opGreaterEqual"@.len());
    assert("Std.Ops.opLessThan"@.len() != "Std.Ops.opAnd"@.len());
    assert("Std.Ops.opLessThan"@.len() != "Std.Ops.opOr"@.len());
    assert("Std.Ops.opLessThan"@.len() != "Std.Ops.opNot"@.len());
    assert("Std.Ops.opLessEqual"@.len() != "Std.Ops.opGreaterThan"@.len());
    assert("Std.Ops.opLessEqual"@.len() != "Std.Ops.opGreaterEqual"@.len());
    assert("Std.Ops.opLessEqual"@.len() != "Std.Ops.opAnd"@.len());
    assert("Std.Ops.opLessEqual"@.len() != "Std.Ops.opOr"@.len());
    assert("Std.Ops.opLessEqual"@.len() != "Std.Ops.opNot"@.len());
    assert("Std.Ops.opGreaterThan"@.len() != "Std.Ops.opGreaterEqual"@.len());
    assert("Std.Ops.opGreaterThan"@.len() != "Std.Ops.opAnd"@.len());
    assert("Std.Ops.opGreaterThan"@.len() != "Std.Ops.opOr"@.len());
    assert("Std.Ops.opGreaterThan"@.len() != "Std.Ops.opNot"@.len());
    assert("Std.Ops.opGreaterEqual"@.len() != "Std.Ops.opAnd"@.len());
    assert("Std.Ops.opGreaterEqual"@.len() != "Std.Ops.opOr"@.len());
    assert("Std.Ops.opGreaterEqual"@.len() != "Std.Ops.opNot"@.len());
    assert("Std.Ops.opAnd"@.len() != "Std.Ops.opOr"@.len());
    assert("Std.Ops.opAnd"@[10] != "Std.Ops.opNot"@[10]);
    assert("Std.Ops.opOr"@.len() != "Std.Ops.opNot"@.len());
    assert("Std.Ops.opAdd"@.subrange(0, 8) =~= "Std.Ops."@);
    assert("Std.Ops.opSub"@.subrange(0, 8) =~= "Std.Ops."@);
    assert("Std.Ops.opMul"@.subrange(0, 8) =~= "Std.Ops."@);
    assert("Std.Ops.opDiv"@.subrange(0, 8) =~= "Std.Ops."@);
    assert("Std.Ops.opEq"@.subrange(0, 8) =~= "Std.Ops."@);
    assert("Std.Ops.opNotEq"@.subrange(0, 8) =~= "Std.Ops."@);
    assert("Std.Ops.opLessThan"@.subrange(0, 8) =~= "Std.Ops."@);
    assert("Std.Ops.opLessEqual"@.subrange(0, 8) =~= "Std.Ops."@);
    assert("Std.Ops.opGreaterThan"@.subrange(0, 8) =~= "Std.Ops."@);
    assert("Std.Ops.opGreaterEqual"@.subrange(0, 8) =~= "Std.Ops."@);
    assert("Std.Ops.opAnd"@.subrange(0, 8) =~= "Std.Ops."@);
    assert("Std.Ops.opOr"@.subrange(0, 8) =~= "Std.Ops."@);
    assert("Std.Ops.opNot"@.subrange(0, 8) =~= "Std.Ops."@);
}

} // verus!
