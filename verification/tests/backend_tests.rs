use siko::backend::class_member_processor::DerivedClass;
use siko::backend::function_queue::FunctionQueue;
use siko::backend::function_queue::FunctionQueueItem;
use siko::backend::typedef_store::TypeDefStore;
use siko::ir::class::ClassId;
use siko::ir::class::ClassMemberId;
use siko::ir::data::TypeDefId;
use siko::ir::function::FunctionId;
use siko::ir::types::Type;
use siko::mir::data::TypeDef;
use siko::mir::data::RecordKind;
use siko::mir::data::TypeDefId as MirTypeDefId;
use siko::mir::program::Program;
use siko::mir::types::Type as MirType;

fn int_type() -> Type {
    Type::Named("Int".to_string(), TypeDefId { id: 0 }, vec![])
}

#[test]
fn queue_gives_each_item_one_id() {
    let mut program = Program::new();
    let mut queue = FunctionQueue::new();
    let main = FunctionQueueItem::Normal(FunctionId { id: 0 }, vec![], Type::Tuple(vec![]));
    let a = queue.insert(main.clone_item(), &mut program);
    let show = FunctionQueueItem::AutoDerive(int_type(), ClassId { id: 1 }, ClassMemberId { id: 2 });
    let b = queue.insert(show.clone_item(), &mut program);
    let c = queue.insert(main.clone_item(), &mut program);
    assert_eq!(a.id, 0);
    assert_eq!(b.id, 1);
    assert_eq!(c.id, 0);
    assert_eq!(program.functions.id.value, 2);
}

#[test]
fn queue_items_compare_by_content() {
    let a = FunctionQueueItem::Normal(FunctionId { id: 3 }, vec![int_type()], int_type());
    let b = FunctionQueueItem::Normal(FunctionId { id: 3 }, vec![int_type()], int_type());
    let c = FunctionQueueItem::Normal(FunctionId { id: 3 }, vec![], int_type());
    assert!(a.equals(&b));
    assert!(!a.equals(&c));
    assert!(a.equals(&a.clone_item()));
}

#[test]
fn tuple_types_get_generated_records() {
    let mut program = Program::new();
    let mut store = TypeDefStore::new();
    let tuple = Type::Tuple(vec![int_type(), int_type()]);
    let fields = vec![MirType::Named(MirTypeDefId { id: 7 }), MirType::Named(MirTypeDefId { id: 8 })];
    let (name, id) = store.add_tuple(tuple, fields, &mut program);
    assert_eq!(name, "tuple#0");
    assert_eq!(id.id, 0);
    match program.typedefs.get(0) {
        TypeDef::Record(record) => {
            assert_eq!(record.name, "tuple#0");
            assert_eq!(record.module, "<generated>");
            assert_eq!(record.fields.len(), 2);
            assert_eq!(record.fields[0].name, "field#0");
            assert_eq!(record.fields[1].name, "field#1");
            assert!(matches!(record.kind, RecordKind::Normal));
        }
        TypeDef::Adt(_) => panic!("a tuple becomes a record"),
    }
    let (again, id2) = store.add_tuple(Type::Tuple(vec![int_type(), int_type()]), vec![], &mut program);
    assert_eq!(again, "tuple#0");
    assert_eq!(id2.id, 0);
    let (other, id3) = store.add_tuple(Type::Tuple(vec![]), vec![], &mut program);
    assert_eq!(other, "tuple#1");
    assert_eq!(id3.id, 1);
}

#[test]
fn derived_member_arg_counts() {
    assert_eq!(DerivedClass::Show.arg_count(), 1);
    assert_eq!(DerivedClass::PartialEq.arg_count(), 2);
    assert_eq!(DerivedClass::PartialOrd.arg_count(), 2);
    assert_eq!(DerivedClass::Ord.arg_count(), 2);
}

#[test]
fn mir_types() {
    let f = MirType::Function(
        Box::new(MirType::Named(MirTypeDefId { id: 1 })),
        Box::new(MirType::Function(
            Box::new(MirType::Named(MirTypeDefId { id: 2 })),
            Box::new(MirType::Named(MirTypeDefId { id: 3 })),
        )),
    );
    let mut args = Vec::new();
    f.get_args(&mut args);
    assert_eq!(args.len(), 2);
    assert_eq!(args[1].get_typedef_id(), MirTypeDefId { id: 2 });
    assert_eq!(f.get_result_type(2).get_typedef_id(), MirTypeDefId { id: 3 });
    assert!(f.equals(&f.clone_type()));
    assert!(!f.equals(&args[0]));
}
