use siko::ir::class::ClassId;
use siko::ir::data::Adt;
use siko::ir::data::TypeDef;
use siko::ir::data::TypeDefId;
use siko::ir::function::FunctionId as IrFunctionId;
use siko::ir::program::Program as IrProgram;
use siko::location::LocationId;
use siko::name_resolver::error::ResolverError;
use siko::name_resolver::import::ImportedItemInfo;
use siko::name_resolver::item::Item;
use siko::name_resolver::module::Module;
use siko::name_resolver::type_arg_resolver::TypeArgResolver;
use siko::name_resolver::type_processor::process_type_signature;
use siko::syntax::data::AdtId;
use siko::syntax::function::FunctionId;
use siko::syntax::module::ModuleId;
use siko::syntax::program::Program;
use siko::syntax::types::TypeSignature;

fn loc(id: usize) -> LocationId {
    LocationId { id: id }
}

fn module_with(names: Vec<(&str, Vec<Item>)>) -> Module {
    let mut m = Module::new(ModuleId { id: 0 }, String::from("Main"), loc(0));
    for (name, items) in names {
        let infos = items
            .into_iter()
            .map(|item| ImportedItemInfo { item: item, source_module: String::from("Data") })
            .collect();
        m.imported_items.push((String::from(name), infos));
    }
    m
}

fn maybe_program() -> (IrProgram, TypeDefId) {
    let mut ir = IrProgram::new();
    let id = ir.typedefs.get_id();
    ir.typedefs.add_item(id, TypeDef::Adt(Adt { name: String::from("Maybe"), type_args: vec![0] }));
    (ir, TypeDefId { id: id })
}

fn sig_text(ir: &IrProgram, id: usize) -> String {
    format!("{:?}", ir.type_signatures.items.get(&id).unwrap().item)
}

#[test]
fn builtin_names_need_no_import() {
    let mut p = Program::new();
    let s = p.add_type_signature(TypeSignature::Named(String::from("Int"), vec![]), loc(3));
    let mut ir = IrProgram::new();
    let m = module_with(vec![]);
    let mut r = TypeArgResolver::new();
    let mut errors = Vec::new();
    let id = process_type_signature(&s, &p, &mut ir, &m, &mut r, &mut errors).unwrap();
    assert_eq!(id.id, 0);
    assert_eq!(sig_text(&ir, 0), "Int");
    assert_eq!(ir.type_signatures.items.get(&0).unwrap().location_id, loc(3));
    assert!(errors.is_empty());
}

#[test]
fn unknown_type_name_is_reported() {
    let mut p = Program::new();
    let s = p.add_type_signature(TypeSignature::Named(String::from("Foo"), vec![]), loc(5));
    let mut ir = IrProgram::new();
    let m = module_with(vec![]);
    let mut r = TypeArgResolver::new();
    let mut errors = Vec::new();
    assert!(process_type_signature(&s, &p, &mut ir, &m, &mut r, &mut errors).is_none());
    assert_eq!(errors.len(), 1);
    assert!(matches!(&errors[0], ResolverError::UnknownTypeName(n, l) if n == "Foo" && *l == loc(5)));
    assert!(ir.type_signatures.items.is_empty());
}

#[test]
fn named_type_with_its_argument() {
    let mut p = Program::new();
    let a = p.add_type_signature(TypeSignature::TypeArg(String::from("a")), loc(1));
    let s = p.add_type_signature(TypeSignature::Named(String::from("Maybe"), vec![a]), loc(2));
    let (mut ir, tid) = maybe_program();
    let m = module_with(vec![("Maybe", vec![Item::Adt(AdtId { id: 4 }, tid)])]);
    let mut r = TypeArgResolver::new();
    r.add_explicit(String::from("a"), vec![ClassId { id: 2 }]);
    let mut errors = Vec::new();
    let id = process_type_signature(&s, &p, &mut ir, &m, &mut r, &mut errors).unwrap();
    assert_eq!(id.id, 1);
    assert_eq!(sig_text(&ir, 0), "TypeArgument(0, \"a\", [ClassId { id: 2 }])");
    assert_eq!(sig_text(&ir, 1), "Named(\"Maybe\", TypeDefId { id: 0 }, [TypeSignatureId { id: 0 }])");
    assert!(errors.is_empty());
}

#[test]
fn wrong_number_of_type_arguments() {
    let mut p = Program::new();
    let s = p.add_type_signature(TypeSignature::Named(String::from("Maybe"), vec![]), loc(7));
    let (mut ir, tid) = maybe_program();
    let m = module_with(vec![("Maybe", vec![Item::Adt(AdtId { id: 4 }, tid)])]);
    let mut r = TypeArgResolver::new();
    let mut errors = Vec::new();
    assert!(process_type_signature(&s, &p, &mut ir, &m, &mut r, &mut errors).is_none());
    assert!(matches!(&errors[0], ResolverError::IncorrectTypeArgumentCount(n, 1, 0, l) if n == "Maybe" && *l == loc(7)));
}

#[test]
fn ambiguous_and_non_type_names() {
    let mut p = Program::new();
    let s1 = p.add_type_signature(TypeSignature::Named(String::from("Both"), vec![]), loc(1));
    let s2 = p.add_type_signature(TypeSignature::Named(String::from("run"), vec![]), loc(2));
    let (mut ir, tid) = maybe_program();
    let f = Item::Function(FunctionId { id: 0 }, IrFunctionId { id: 0 });
    let m = module_with(vec![("Both", vec![Item::Adt(AdtId { id: 1 }, tid), f]), ("run", vec![f])]);
    let mut r = TypeArgResolver::new();
    let mut errors = Vec::new();
    assert!(process_type_signature(&s1, &p, &mut ir, &m, &mut r, &mut errors).is_none());
    assert!(process_type_signature(&s2, &p, &mut ir, &m, &mut r, &mut errors).is_none());
    assert!(matches!(&errors[0], ResolverError::AmbiguousName(n, _) if n == "Both"));
    assert!(matches!(&errors[1], ResolverError::NameNotType(n, _) if n == "run"));
}

#[test]
fn tuple_keeps_the_items_that_resolve() {
    let mut p = Program::new();
    let b = p.add_type_signature(TypeSignature::TypeArg(String::from("b")), loc(1));
    let i = p.add_type_signature(TypeSignature::Named(String::from("Bool"), vec![]), loc(2));
    let t = p.add_type_signature(TypeSignature::Tuple(vec![b, i]), loc(3));
    let mut ir = IrProgram::new();
    let m = module_with(vec![]);
    let mut r = TypeArgResolver::new();
    let mut errors = Vec::new();
    let id = process_type_signature(&t, &p, &mut ir, &m, &mut r, &mut errors).unwrap();
    assert_eq!(id.id, 1);
    assert_eq!(sig_text(&ir, 0), "Bool");
    assert_eq!(sig_text(&ir, 1), "Tuple([TypeSignatureId { id: 0 }])");
    assert!(matches!(&errors[0], ResolverError::UnknownTypeArg(n, l) if n == "b" && *l == loc(1)));
}

#[test]
fn function_with_a_failed_side_takes_a_fresh_identifier() {
    let mut p = Program::new();
    let x = p.add_type_signature(TypeSignature::TypeArg(String::from("x")), loc(1));
    let s = p.add_type_signature(TypeSignature::Named(String::from("String"), vec![]), loc(2));
    let f = p.add_type_signature(TypeSignature::Function(x, s), loc(3));
    let mut ir = IrProgram::new();
    let m = module_with(vec![]);
    let mut r = TypeArgResolver::new();
    let mut errors = Vec::new();
    let id = process_type_signature(&f, &p, &mut ir, &m, &mut r, &mut errors).unwrap();
    assert_eq!(id.id, 2);
    assert!(ir.type_signatures.items.get(&0).is_none());
    assert_eq!(sig_text(&ir, 1), "String");
    assert_eq!(sig_text(&ir, 2), "Function(TypeSignatureId { id: 0 }, TypeSignatureId { id: 1 })");
    assert_eq!(errors.len(), 1);
}

#[test]
fn variant_stops_at_the_first_failure() {
    let mut p = Program::new();
    let u = p.add_type_signature(TypeSignature::TypeArg(String::from("u")), loc(1));
    let w = p.add_type_signature(TypeSignature::Wildcard, loc(2));
    let v = p.add_type_signature(TypeSignature::Variant(String::from("V"), vec![u, w]), loc(3));
    let mut ir = IrProgram::new();
    let m = module_with(vec![]);
    let mut r = TypeArgResolver::new();
    let mut errors = Vec::new();
    assert!(process_type_signature(&v, &p, &mut ir, &m, &mut r, &mut errors).is_none());
    assert!(ir.type_signatures.items.is_empty());
    assert_eq!(errors.len(), 1);
}
