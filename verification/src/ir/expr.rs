use crate::ir::class::ClassMemberId;
use crate::ir::data::TypeDefId;
use crate::ir::function::FunctionId;
use crate::ir::pattern::PatternId;
use vstd::prelude::*;

verus! {

/// Identifies an expression of the intermediate representation.
#[derive(Debug, Clone, Copy, PartialEq, Eq, PartialOrd, Ord, Structural)]
pub struct ExprId {
    pub id: usize,
}

/// A reference to an argument of a function: whether it is one of the
/// arguments captured by a closure, the function and the position.
#[derive(Debug, Clone, Copy, PartialEq, Eq, Structural)]
pub struct FunctionArgumentRef {
    pub captured: bool,
    pub id: FunctionId,
    pub index: usize,
}

/// Which record a field access may read, and the field's position there.
#[derive(Debug, Clone, Copy, PartialEq, Eq, Structural)]
pub struct FieldAccessInfo {
    pub record_id: TypeDefId,
    pub index: usize,
}

/// One arm of a case expression: its pattern and its body.
#[derive(Debug, Clone, Copy, PartialEq, Eq, Structural)]
pub struct Case {
    pub pattern_id: PatternId,
    pub body: ExprId,
}

/// The value of one field in a record initialization or update.
#[derive(Debug, Clone, Copy, PartialEq, Eq, Structural)]
pub struct RecordFieldValueExpr {
    pub expr_id: ExprId,
    pub index: usize,
}

/// The new field values of a record update, for one of the records the
/// updated value may be.
#[derive(Debug, Clone)]
pub struct RecordUpdateInfo {
    pub record_id: TypeDefId,
    pub items: Vec<RecordFieldValueExpr>,
}

/// An expression of the intermediate representation; its parts are other
/// expressions of the program, by identifier. A float literal holds the bits
/// of its value.
#[derive(Debug, Clone)]
pub enum Expr {
    ArgRef(FunctionArgumentRef),
    Bind(PatternId, ExprId),
    CaseOf(ExprId, Vec<Case>),
    ClassFunctionCall(ClassMemberId, Vec<ExprId>),
    DynamicFunctionCall(ExprId, Vec<ExprId>),
    Do(Vec<ExprId>),
    ExprValue(ExprId, PatternId),
    FieldAccess(Vec<FieldAccessInfo>, ExprId),
    FloatLiteral(u64),
    Formatter(String, Vec<ExprId>),
    If(ExprId, ExprId, ExprId),
    IntegerLiteral(i64),
    List(Vec<ExprId>),
    StaticFunctionCall(FunctionId, Vec<ExprId>),
    StringLiteral(String),
    RecordInitialization(TypeDefId, Vec<RecordFieldValueExpr>),
    RecordUpdate(ExprId, Vec<RecordUpdateInfo>),
    Tuple(Vec<ExprId>),
    TupleFieldAccess(usize, ExprId),
}

} // verus!
