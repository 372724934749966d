use crate::ir::class::ClassId as IrClassId;
use crate::ir::class::ClassMemberId as IrClassMemberId;
use crate::ir::data::TypeDefId;
use crate::ir::function::FunctionId as IrFunctionId;
use crate::syntax::class::ClassId;
use crate::syntax::class::ClassMemberId;
use crate::syntax::data::AdtId;
use crate::syntax::data::RecordFieldId;
use crate::syntax::data::RecordId;
use crate::syntax::data::VariantId;
use crate::syntax::function::FunctionId;
use vstd::prelude::*;

verus! {

/// A named item of a module, with what it is in the syntax tree and in the
/// intermediate representation.
#[derive(Debug, Clone, Copy, PartialEq, Eq, Structural)]
pub enum Item {
    Function(FunctionId, IrFunctionId),
    Record(RecordId, TypeDefId),
    Adt(AdtId, TypeDefId),
    Variant(AdtId, VariantId, TypeDefId, usize),
    Class(ClassId, IrClassId),
    ClassMember(ClassId, ClassMemberId, IrClassMemberId),
}

/// A member of a data type: a record field or a variant.
#[derive(Debug, Clone, Copy, PartialEq, Eq, Structural)]
pub enum DataMember {
    RecordField(RecordField),
    Variant(Variant),
}

/// A field of a record, with its position.
#[derive(Debug, Clone, Copy, PartialEq, Eq, Structural)]
pub struct RecordField {
    pub field_id: RecordFieldId,
    pub record_id: RecordId,
    pub ir_typedef_id: TypeDefId,
    pub index: usize,
}

/// A variant of an algebraic data type.
#[derive(Debug, Clone, Copy, PartialEq, Eq, Structural)]
pub struct Variant {
    pub variant_id: VariantId,
    pub adt_id: AdtId,
}

} // verus!
