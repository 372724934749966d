use siko::mir::data::Adt;
use siko::mir::data::ExternalDataKind;
use siko::mir::data::Record;
use siko::mir::data::RecordField;
use siko::mir::data::RecordKind;
use siko::mir::data::TypeDef;
use siko::mir::data::TypeDefId;
use siko::mir::data::Variant;
use siko::mir::program::Program;
use siko::mir::types::Type;
use siko::transpiler::typedef::write_builtin;
use siko::transpiler::typedef::write_typedef;
use siko::transpiler::typedef::RustNames;
use siko::transpiler::util::Indent;

fn names() -> RustNames {
    RustNames { internal_module: String::from("siko_internal"), function_trait: String::from("Function") }
}

fn add(p: &mut Program, def: impl FnOnce(TypeDefId) -> TypeDef) -> TypeDefId {
    let id = TypeDefId { id: p.typedefs.get_id() };
    p.typedefs.add_item(id.id, def(id));
    id
}

fn external(id: TypeDefId, name: &str, kind: ExternalDataKind, args: Vec<Type>) -> TypeDef {
    TypeDef::Record(Record {
        id: id,
        module: String::from("Data.Builtin"),
        name: String::from(name),
        fields: vec![],
        kind: RecordKind::External(kind, args),
    })
}

fn written(p: &Program, id: TypeDefId, indent: &mut Indent) -> String {
    let mut out = String::new();
    write_typedef(id, p, &names(), indent, &mut out);
    out
}

#[test]
fn external_int_record() {
    let mut p = Program::new();
    let int = add(&mut p, |id| external(id, "Int", ExternalDataKind::Int, vec![]));
    let mut indent = Indent::new();
    assert_eq!(
        written(&p, int, &mut indent),
        "#[derive(Clone, PartialEq, Eq, PartialOrd, Ord)]\npub struct Int {\n    pub value: i64,\n}\n"
    );
}

#[test]
fn enum_with_variants_indented() {
    let mut p = Program::new();
    let int = add(&mut p, |id| external(id, "Int", ExternalDataKind::Int, vec![]));
    let maybe = add(&mut p, |id| {
        TypeDef::Adt(Adt {
            id: id,
            module: String::from("Data.Maybe"),
            name: String::from("Maybe"),
            variants: vec![
                Variant { name: String::from("Just"), items: vec![Type::Named(int)] },
                Variant { name: String::from("Nothing"), items: vec![] },
            ],
        })
    });
    let mut indent = Indent::new();
    indent.inc();
    assert_eq!(
        written(&p, maybe, &mut indent),
        "    #[derive(Clone)]\n    pub enum Maybe {\n        Just(crate::Data_Builtin::Int),\n        Nothing,\n    }\n"
    );
    assert_eq!(indent.to_string(), "    ");
}

#[test]
fn record_fields_and_function_types() {
    let mut p = Program::new();
    let int = add(&mut p, |id| external(id, "Int", ExternalDataKind::Int, vec![]));
    let point = add(&mut p, |id| {
        TypeDef::Record(Record {
            id: id,
            module: String::from("Main"),
            name: String::from("Point"),
            fields: vec![
                RecordField { name: String::from("x"), ty: Type::Named(int) },
                RecordField {
                    name: String::from("f"),
                    ty: Type::Function(Box::new(Type::Named(int)), Box::new(Type::Named(int))),
                },
            ],
            kind: RecordKind::Normal,
        })
    });
    let mut indent = Indent::new();
    assert_eq!(
        written(&p, point, &mut indent),
        "#[derive(Clone)]\npub struct Point {\n    pub x: crate::Data_Builtin::Int,\n    pub f: Box<dyn ::crate::siko_internal::Function<crate::Data_Builtin::Int, crate::Data_Builtin::Int>>,\n}\n"
    );
}

#[test]
fn map_list_and_iterator_records() {
    let mut p = Program::new();
    let int = add(&mut p, |id| external(id, "Int", ExternalDataKind::Int, vec![]));
    let map = add(&mut p, |id| external(id, "Map", ExternalDataKind::Mapping, vec![Type::Named(int), Type::Named(int)]));
    let list = add(&mut p, |id| external(id, "List", ExternalDataKind::List, vec![Type::Named(int)]));
    let iter = add(&mut p, |id| external(id, "Iter", ExternalDataKind::Iterator, vec![]));
    let mut indent = Indent::new();
    assert_eq!(
        written(&p, map, &mut indent),
        "#[derive(Clone, PartialEq, Eq, PartialOrd, Ord)]\npub struct Map {\n    pub value: std::collections::BTreeMap<crate::Data_Builtin::Int, crate::Data_Builtin::Int>,\n}\n"
    );
    assert_eq!(
        written(&p, list, &mut indent),
        "#[derive(Clone)]\npub struct List {\n    pub value: Vec<crate::Data_Builtin::Int>,\n}\n"
    );
    assert_eq!(written(&p, iter, &mut indent), "#[derive(Clone)]\npub struct Iter {\n}\n");
}

fn adt(id: TypeDefId, module: &str, name: &str, variants: Vec<Variant>) -> TypeDef {
    TypeDef::Adt(Adt { id: id, module: String::from(module), name: String::from(name), variants: variants })
}

#[test]
fn builtin_finds_the_ordering_type() {
    let mut p = Program::new();
    let ordering = add(&mut p, |id| adt(id, "Std.Ordering", "Ordering", vec![]));
    let option = add(&mut p, |id| {
        adt(
            id,
            "Std.Option",
            "Option",
            vec![
                Variant { name: String::from("Some"), items: vec![Type::Named(ordering)] },
                Variant { name: String::from("None"), items: vec![] },
            ],
        )
    });
    let mut out = String::new();
    let mut indent = Indent::new();
    write_builtin("Int", "partialCmp", &Type::Named(option), &p, &names(), &vec![], &mut indent, &mut out);
    assert!(out.contains(
        " Some(std::cmp::Ordering::Less) => { crate::Std_Option::Option::Some(crate::Std_Ordering::Ordering::Less) }\n"
    ));
    assert_eq!(indent.to_string(), "");
}

#[test]
fn builtin_finds_the_option_type_of_map_updates() {
    let mut p = Program::new();
    let option = add(&mut p, |id| adt(id, "Std.Option", "Option", vec![]));
    let map = add(&mut p, |id| external(id, "Map", ExternalDataKind::Mapping, vec![]));
    let tuple = add(&mut p, |id| {
        TypeDef::Record(Record {
            id: id,
            module: String::from("siko_internal"),
            name: String::from("Tuple_2"),
            fields: vec![
                RecordField { name: String::from("field_0"), ty: Type::Named(map) },
                RecordField { name: String::from("field_1"), ty: Type::Named(option) },
            ],
            kind: RecordKind::Normal,
        })
    });
    let mut out = String::new();
    let mut indent = Indent::new();
    write_builtin("Map", "insert", &Type::Named(tuple), &p, &names(), &vec![], &mut indent, &mut out);
    assert!(out.contains(" Some(v) => crate::Std_Option::Option::Some(v),\n"));
    assert!(out.contains("crate::siko_internal::Tuple_2 { field_0 : arg0, field_1: value }"));
}
