use crate::ir::types::Type as IrType;
use crate::ir::types::TypeModel;
use crate::mir::data::Record as MirRecord;
use crate::mir::data::RecordField as MirRecordField;
use crate::mir::data::RecordKind as MirRecordKind;
use crate::mir::data::TypeDef as MirTypeDef;
use crate::mir::data::TypeDefId as MirTypeDefId;
use crate::mir::program::Program as MirProgram;
use crate::mir::types::Type as MirType;
use crate::util::assoc_map;
use crate::util::decimal;
use crate::util::decimal_string;
use crate::util::distinct_keys;
use crate::util::lemma_assoc_contains;
use crate::util::lemma_assoc_index;
use crate::util::lemma_assoc_push;
use crate::util::lemma_decimal_injective;
use vstd::prelude::*;

verus! {

/// Gives each type of the intermediate representation one type definition
/// of the middle representation.
#[derive(Debug)]
pub struct TypeDefStore {
    typedefs: Vec<(IrType, MirTypeDefId)>,
}

/// Pairs of types and type definitions, by the model of the type.
pub open spec fn store_entries(v: Seq<(IrType, MirTypeDefId)>) -> Seq<(TypeModel, usize)> {
    Seq::new(v.len(), |i: int| (v[i].0.model(), v[i].1.id))
}

/// The name of the record generated for a tuple type.
pub open spec fn tuple_name(id: nat) -> Seq<char> {
    seq!['t', 'u', 'p', 'l', 'e', '#'] + decimal(id)
}

/// The name of a field of a generated tuple record.
pub open spec fn tuple_field_name(index: nat) -> Seq<char> {
    seq!['f', 'i', 'e', 'l', 'd', '#'] + decimal(index)
}

/// Different tuple types get records of different names, and the fields of
/// a tuple record have different names.
pub proof fn lemma_tuple_names_distinct(a: nat, b: nat)
    ensures
        tuple_name(a) == tuple_name(b) ==> a == b,
        tuple_field_name(a) == tuple_field_name(b) ==> a == b,
{
    if tuple_name(a) == tuple_name(b) {
        assert(tuple_name(a).subrange(6, tuple_name(a).len() as int) =~= decimal(a));
        assert(tuple_name(b).subrange(6, tuple_name(b).len() as int) =~= decimal(b));
        lemma_decimal_injective(a, b);
    }
    if tuple_field_name(a) == tuple_field_name(b) {
        assert(tuple_field_name(a).subrange(6, tuple_field_name(a).len() as int) =~= decimal(a));
        assert(tuple_field_name(b).subrange(6, tuple_field_name(b).len() as int) =~= decimal(b));
        lemma_decimal_injective(a, b);
    }
}

/// The module in which generated records stand.
pub open spec fn generated_module() -> Seq<char> {
    seq!['<', 'g', 'e', 'n', 'e', 'r', 'a', 't', 'e', 'd', '>']
}

/// Whether `def` is the record generated for a tuple type: identifier `id`,
/// one field per field type, in order.
pub open spec fn is_tuple_record(def: MirTypeDef, id: MirTypeDefId, field_types: Seq<MirType>) -> bool {
    &&& def is Record
    &&& def->Record_0.id == id
    &&& def->Record_0.module@ == generated_module()
    &&& def->Record_0.name@ == tuple_name(id.id as nat)
    &&& def->Record_0.kind is Normal
    &&& def->Record_0.fields@.len() == field_types.len()
    &&& forall|i: int|
        0 <= i < field_types.len() ==> {
            &&& (#[trigger] def->Record_0.fields@[i]).name@ == tuple_field_name(i as nat)
            &&& def->Record_0.fields@[i].ty == field_types[i]
        }
}

impl TypeDefStore {
    /// The type definition given to each type so far.
    pub closed spec fn view(&self) -> Map<TypeModel, usize> {
        assoc_map(store_entries(self.typedefs@))
    }

    /// No type is filed twice.
    pub closed spec fn wf(&self) -> bool {
        distinct_keys(store_entries(self.typedefs@))
    }

    pub fn new() -> (r: TypeDefStore)
        ensures
            r.wf(),
            r.view() == Map::<TypeModel, usize>::empty(),
    {
        let r = TypeDefStore { typedefs: Vec::new() };
        assert(store_entries(r.typedefs@) =~= Seq::empty());
        r
    }

    fn find(&self, ty: &IrType) -> (r: Option<usize>)
        requires
            self.wf(),
        ensures
            match r {
                Some(i) => i < self.typedefs@.len() && self.typedefs@[i as int].0.model()
                    == ty.model() && self.view().contains_key(ty.model()) && self.view()[ty.model()]
                    == self.typedefs@[i as int].1.id,
                None => !self.view().contains_key(ty.model()),
            },
    {
        let ghost entries = store_entries(self.typedefs@);
        let mut i: usize = 0;
        while i < self.typedefs.len()
            invariant
                i <= self.typedefs@.len(),
                entries == store_entries(self.typedefs@),
                distinct_keys(entries),
                forall|j: int| 0 <= j < i ==> (#[trigger] entries[j]).0 != ty.model(),
            decreases self.typedefs@.len() - i,
        {
            if self.typedefs[i].0.equals(ty) {
                proof {
                    lemma_assoc_index(entries, i as int);
                }
                return Some(i);
            }
            i += 1;
        }
        proof {
            lemma_assoc_contains(entries, ty.model());
            if assoc_map(entries).contains_key(ty.model()) {
                let j = choose|j: int| 0 <= j < entries.len() && (#[trigger] entries[j]).0 == ty.model();
                assert(entries[j].0 != ty.model());
            }
        }
        None
    }

    /// The record definition of a tuple type, with its name. A tuple type met
    /// for the first time gets a fresh identifier from the program's type
    /// definition table and a generated record with one field per field type.
    pub fn add_tuple(&mut self, ty: IrType, field_types: Vec<MirType>, mir_program: &mut MirProgram) -> (r: (String, MirTypeDefId))
        requires
            old(self).wf(),
            !old(self).view().contains_key(ty.model()) ==> old(mir_program).typedefs.id.value < usize::MAX,
        ensures
            final(self).wf(),
            r.0@ == tuple_name(r.1.id as nat),
            old(self).view().contains_key(ty.model()) ==> {
                &&& r.1.id == old(self).view()[ty.model()]
                &&& final(self).view() == old(self).view()
                &&& final(mir_program).typedefs == old(mir_program).typedefs
            },
            !old(self).view().contains_key(ty.model()) ==> {
                &&& r.1.id == old(mir_program).typedefs.id.value
                &&& final(self).view() == old(self).view().insert(ty.model(), r.1.id)
                &&& final(mir_program).typedefs.id.value == old(mir_program).typedefs.id.value + 1
                &&& final(mir_program).typedefs.items@.contains_key(r.1.id)
                &&& is_tuple_record(final(mir_program).typedefs.items@[r.1.id], r.1, field_types@)
                &&& forall|k: usize|
                    k != r.1.id ==> (#[trigger] final(mir_program).typedefs.items@.contains_key(k)
                        == old(mir_program).typedefs.items@.contains_key(k)
                        && final(mir_program).typedefs.items@[k]
                        == old(mir_program).typedefs.items@[k])
            },
            final(mir_program).functions == old(mir_program).functions,
    {
        match self.find(&ty) {
            Some(i) => {
                let id = self.typedefs[i].1;
                let name = tuple_name_string(id.id);
                (name, id)
            },
            None => {
                let id = MirTypeDefId { id: mir_program.typedefs.get_id() };
                let name = tuple_name_string(id.id);
                let ghost m = ty.model();
                let ghost entries = store_entries(self.typedefs@);
                proof {
                    lemma_assoc_push(entries, m, id.id);
                }
                self.typedefs.push((ty, id));
                assert(store_entries(self.typedefs@) =~= entries.push((m, id.id)));
                let mut fields: Vec<MirRecordField> = Vec::new();
                let mut index: usize = 0;
                while index < field_types.len()
                    invariant
                        index <= field_types@.len(),
                        fields@.len() == index,
                        forall|j: int|
                            0 <= j < index ==> {
                                &&& (#[trigger] fields@[j]).name@ == tuple_field_name(j as nat)
                                &&& fields@[j].ty == field_types@[j]
                            },
                    decreases field_types@.len() - index,
                {
                    let mir_field = MirRecordField {
                        name: tuple_field_name_string(index),
                        ty: field_types[index].clone_type(),
                    };
                    fields.push(mir_field);
                    index += 1;
                }
                let mir_record = MirRecord {
                    id: id,
                    module: generated_module_string(),
                    name: name.clone(),
                    fields: fields,
                    kind: MirRecordKind::Normal,
                };
                let mir_typedef = MirTypeDef::Record(mir_record);
                mir_program.typedefs.add_item(id.id, mir_typedef);
                (name, id)
            },
        }
    }
}

fn tuple_name_string(id: usize) -> (r: String)
    ensures
        r@ == tuple_name(id as nat),
{
    let mut s = String::from_str("tuple#");
    proof {
        reveal_strlit("tuple#");
    }
    let digits = decimal_string(id);
    s.append(digits.as_str());
    s
}

fn tuple_field_name_string(index: usize) -> (r: String)
    ensures
        r@ == tuple_field_name(index as nat),
{
    let mut s = String::from_str("field#");
    proof {
        reveal_strlit("field#");
    }
    let digits = decimal_string(index);
    s.append(digits.as_str());
    s
}

fn generated_module_string() -> (r: String)
    ensures
        r@ == generated_module(),
{
    let s = String::from_str("<generated>");
    proof {
        reveal_strlit("<generated>");
    }
    s
}

} // verus!
