use crate::ir::type_format::join;
use crate::ir::type_format::join_strings;
use crate::ir::type_format::string_views;
use crate::mir::data::ExternalDataKind;
use crate::mir::data::RecordField;
use crate::mir::data::RecordKind;
use crate::mir::data::TypeDef;
use crate::mir::data::TypeDefId;
use crate::mir::data::Variant;
use crate::mir::program::Program;
use crate::mir::types::Type;
use crate::transpiler::builtins::builtin_text;
use crate::transpiler::builtins::generate_builtin;
use crate::transpiler::builtins::is_builtin;
use crate::transpiler::util::get_module_name;
use crate::transpiler::util::module_name_of;
use crate::transpiler::util::spaces;
use crate::transpiler::util::Indent;
use crate::util::str_eq;
use vstd::prelude::*;

verus! {

/// The names the generated code uses for the function values: the module
/// that holds the generated helpers and the trait of callable values.
pub struct RustNames {
    pub internal_module: String,
    pub function_trait: String,
}

/// Every type definition that the type names is in `defs`.
pub open spec fn type_known(ty: Type, defs: Map<usize, TypeDef>) -> bool
    decreases ty,
{
    match ty {
        Type::Named(id) => defs.contains_key(id.id),
        Type::Function(from, to) => type_known(*from, defs) && type_known(*to, defs),
    }
}

/// The module and the name of a type definition.
pub open spec fn def_path(def: TypeDef) -> (Seq<char>, Seq<char>) {
    match def {
        TypeDef::Adt(a) => (a.module@, a.name@),
        TypeDef::Record(r) => (r.module@, r.name@),
    }
}

/// The Rust type that the generated code uses for `ty`: a boxed callable of
/// the function trait for a function, the generated type in its module for
/// a type definition.
pub open spec fn rust_type_text(ty: Type, defs: Map<usize, TypeDef>, names: RustNames) -> Seq<char>
    decreases ty,
{
    match ty {
        Type::Function(from, to) => "Box<dyn ::crate::"@ + names.internal_module@ + "::"@
            + names.function_trait@ + "<"@ + rust_type_text(*from, defs, names) + ", "@
            + rust_type_text(*to, defs, names) + ">>"@,
        Type::Named(id) => "crate::"@ + module_name_of(def_path(defs[id.id]).0) + "::"@ + def_path(
            defs[id.id],
        ).1,
    }
}

/// The Rust types of a sequence of types.
pub open spec fn rust_type_texts(tys: Seq<Type>, defs: Map<usize, TypeDef>, names: RustNames) -> Seq<Seq<char>> {
    Seq::new(tys.len(), |i: int| rust_type_text(tys[i], defs, names))
}

/// Writes the Rust type that the generated code uses for `ty` (see
/// [`rust_type_text`]).
pub fn ir_type_to_rust_type(ty: &Type, program: &Program, names: &RustNames) -> (r: String)
    requires
        type_known(*ty, program.typedefs.items@),
    ensures
        r@ == rust_type_text(*ty, program.typedefs.items@, *names),
    decreases ty,
{
    match ty {
        Type::Function(from, to) => {
            let from_text = ir_type_to_rust_type(from, program, names);
            let to_text = ir_type_to_rust_type(to, program, names);
            let mut s = String::from_str("Box<dyn ::crate::");
            s.append(names.internal_module.as_str());
            s.append("::");
            s.append(names.function_trait.as_str());
            s.append("<");
            s.append(from_text.as_str());
            s.append(", ");
            s.append(to_text.as_str());
            s.append(">>");
            s
        },
        Type::Named(id) => {
            let (module, name) = match program.typedefs.get(id.id) {
                TypeDef::Adt(adt) => (get_module_name(adt.module.as_str()), adt.name.clone()),
                TypeDef::Record(record) => (get_module_name(record.module.as_str()), record.name.clone()),
            };
            let mut s = String::from_str("crate::");
            s.append(module.as_str());
            s.append("::");
            s.append(name.as_str());
            s
        },
    }
}

/// A variant of an enum: its name, its item types in brackets where it has
/// any, and a comma.
pub open spec fn variant_line(level: int, v: Variant, defs: Map<usize, TypeDef>, names: RustNames) -> Seq<char> {
    spaces(level) + v.name@ + (if v.items@.len() == 0 {
        Seq::empty()
    } else {
        "("@ + join(rust_type_texts(v.items@, defs, names), ", "@) + ")"@
    }) + ",\n"@
}

/// The lines of the variants, in order.
pub open spec fn variant_lines(level: int, vs: Seq<Variant>, defs: Map<usize, TypeDef>, names: RustNames) -> Seq<char>
    decreases vs.len(),
{
    if vs.len() == 0 {
        Seq::empty()
    } else {
        variant_lines(level, vs.drop_last(), defs, names) + variant_line(level, vs.last(), defs, names)
    }
}

/// The lines of the fields of a struct, in order.
pub open spec fn field_lines(level: int, fs: Seq<RecordField>, defs: Map<usize, TypeDef>, names: RustNames) -> Seq<char>
    decreases fs.len(),
{
    if fs.len() == 0 {
        Seq::empty()
    } else {
        field_lines(level, fs.drop_last(), defs, names) + spaces(level) + "pub "@ + fs.last().name@ + ": "@
            + rust_type_text(fs.last().ty, defs, names) + ",\n"@
    }
}

/// A public struct with the given derives, name and body.
pub open spec fn struct_text(level: int, derives: Seq<char>, name: Seq<char>, body: Seq<char>) -> Seq<char> {
    spaces(level) + "#[derive("@ + derives + ")]\n"@ + spaces(level) + "pub struct "@ + name + " {\n"@ + body
        + spaces(level) + "}\n"@
}

/// Every type that the definition uses is known, and an external record has
/// the type arguments its data needs.
pub open spec fn typedef_writable(def: TypeDef, defs: Map<usize, TypeDef>) -> bool {
    match def {
        TypeDef::Adt(a) => forall|i: int, k: int|
            0 <= i < a.variants@.len() && 0 <= k < a.variants@[i].items@.len() ==> type_known(
                #[trigger] a.variants@[i].items@[k],
                defs,
            ),
        TypeDef::Record(r) => match r.kind {
            RecordKind::Normal => forall|i: int|
                0 <= i < r.fields@.len() ==> type_known(#[trigger] r.fields@[i].ty, defs),
            RecordKind::External(ExternalDataKind::Mapping, args) => args@.len() >= 2 && type_known(
                args@[0],
                defs,
            ) && type_known(args@[1], defs),
            RecordKind::External(ExternalDataKind::List, args) => args@.len() >= 1 && type_known(args@[0], defs),
            _ => true,
        },
    }
}

/// The Rust definition that the generated code holds for `def`, indented by
/// `level` spaces.
pub open spec fn typedef_text(def: TypeDef, level: int, defs: Map<usize, TypeDef>, names: RustNames) -> Seq<char> {
    let inner = level + 4;
    match def {
        TypeDef::Adt(a) => spaces(level) + "#[derive(Clone)]\n"@ + spaces(level) + "pub enum "@ + a.name@ + " {\n"@
            + variant_lines(inner, a.variants@, defs, names) + spaces(level) + "}\n"@,
        TypeDef::Record(r) => match r.kind {
            RecordKind::Normal => struct_text(level, "Clone"@, r.name@, field_lines(inner, r.fields@, defs, names)),
            RecordKind::External(kind, args) => match kind {
                ExternalDataKind::Int => struct_text(
                    level,
                    "Clone, PartialEq, Eq, PartialOrd, Ord"@,
                    "Int"@,
                    spaces(inner) + "pub value: i64,\n"@,
                ),
                ExternalDataKind::String => struct_text(
                    level,
                    "Clone, PartialEq, Eq, PartialOrd"@,
                    "String"@,
                    spaces(inner) + "pub value: std::string::String,\n"@,
                ),
                ExternalDataKind::Float => struct_text(
                    level,
                    "Clone, PartialEq, PartialOrd"@,
                    "Float"@,
                    spaces(inner) + "pub value: f64,\n"@,
                ),
                ExternalDataKind::Mapping => struct_text(
                    level,
                    "Clone, PartialEq, Eq, PartialOrd, Ord"@,
                    r.name@,
                    spaces(inner) + "pub value: std::collections::BTreeMap<"@ + rust_type_text(args@[0], defs, names)
                        + ", "@ + rust_type_text(args@[1], defs, names) + ">,\n"@,
                ),
                ExternalDataKind::Iterator => struct_text(level, "Clone"@, r.name@, Seq::empty()),
                ExternalDataKind::List => struct_text(
                    level,
                    "Clone"@,
                    r.name@,
                    spaces(inner) + "pub value: Vec<"@ + rust_type_text(args@[0], defs, names) + ">,\n"@,
                ),
            },
        },
    }
}

/// Appends the indentation and then `text`.
fn write_line(out: &mut String, indent: &Indent, text: &str)
    ensures
        final(out)@ == old(out)@ + indent.text() + text@,
{
    let pad = indent.to_string();
    out.append(pad.as_str());
    out.append(text);
}

/// Appends a public struct with the given derives, name and body (see
/// [`struct_text`]).
fn write_struct(out: &mut String, indent: &Indent, derives: &str, name: &str, body: &str)
    ensures
        final(out)@ == old(out)@ + struct_text(indent.level(), derives@, name@, body@),
{
    let ghost start = out@;
    proof {
        reveal_strlit("#[derive(");
    }
    write_line(out, indent, "#[derive(");
    out.append(derives);
    out.append(")]\n");
    write_line(out, indent, "pub struct ");
    out.append(name);
    out.append(" {\n");
    out.append(body);
    write_line(out, indent, "}\n");
    assert(out@ =~= start + struct_text(indent.level(), derives@, name@, body@));
}

/// The Rust types of `items`, with a comma and a space between each two.
fn write_types_joined(items: &Vec<Type>, program: &Program, names: &RustNames) -> (r: String)
    requires
        forall|k: int| 0 <= k < items@.len() ==> type_known(#[trigger] items@[k], program.typedefs.items@),
    ensures
        r@ == join(rust_type_texts(items@, program.typedefs.items@, *names), ", "@),
{
    let mut texts: Vec<String> = Vec::new();
    let mut i: usize = 0;
    while i < items.len()
        invariant
            i <= items@.len(),
            forall|k: int| 0 <= k < items@.len() ==> type_known(#[trigger] items@[k], program.typedefs.items@),
            texts@.len() == i,
            string_views(texts@) == rust_type_texts(items@, program.typedefs.items@, *names).subrange(0, i as int),
        decreases items@.len() - i,
    {
        let t = ir_type_to_rust_type(&items[i], program, names);
        let ghost prev = texts@;
        let ghost all = rust_type_texts(items@, program.typedefs.items@, *names);
        texts.push(t);
        proof {
            assert forall|k: int| 0 <= k < i + 1 implies #[trigger] string_views(texts@)[k] == all[k] by {
                if k < i {
                    assert(texts@[k] == prev[k]);
                    assert(string_views(prev)[k] == all.subrange(0, i as int)[k]);
                }
            }
        }
        i += 1;
        assert(string_views(texts@) =~= all.subrange(0, i as int));
    }
    assert(rust_type_texts(items@, program.typedefs.items@, *names).subrange(0, i as int) =~= rust_type_texts(
        items@,
        program.typedefs.items@,
        *names,
    ));
    join_strings(&texts, ", ")
}

/// Writes the Rust definition of the type definition `typedef_id` to `out`,
/// indented as `indent` says (see [`typedef_text`]); `indent` is as it was
/// afterwards.
pub fn write_typedef(
    typedef_id: TypeDefId,
    program: &Program,
    names: &RustNames,
    indent: &mut Indent,
    out: &mut String,
)
    requires
        program.typedefs.items@.contains_key(typedef_id.id),
        typedef_writable(program.typedefs.items@[typedef_id.id], program.typedefs.items@),
        old(indent).level() + 4 <= usize::MAX,
    ensures
        final(out)@ == old(out)@ + typedef_text(
            program.typedefs.items@[typedef_id.id],
            old(indent).level(),
            program.typedefs.items@,
            *names,
        ),
        final(indent).level() == old(indent).level(),
{
    let ghost defs = program.typedefs.items@;
    let ghost start = out@;
    let ghost level = indent.level();
    proof {
        indent.lemma_level_range();
    }
    let typedef = program.typedefs.get(typedef_id.id);
    match typedef {
        TypeDef::Adt(adt) => {
            write_line(out, indent, "#[derive(Clone)]\n");
            write_line(out, indent, "pub enum ");
            out.append(adt.name.as_str());
            out.append(" {\n");
            let ghost head = out@;
            indent.inc();
            let mut i: usize = 0;
            proof {
                assert(adt.variants@.subrange(0, 0) =~= Seq::<Variant>::empty());
            }
            while i < adt.variants.len()
                invariant
                    i <= adt.variants@.len(),
                    indent.level() == level + 4,
                    defs == program.typedefs.items@,
                    forall|j: int, k: int|
                        0 <= j < adt.variants@.len() && 0 <= k < adt.variants@[j].items@.len() ==> type_known(
                            #[trigger] adt.variants@[j].items@[k],
                            defs,
                        ),
                    out@ == head + variant_lines(level + 4, adt.variants@.subrange(0, i as int), defs, *names),
                decreases adt.variants@.len() - i,
            {
                let v = &adt.variants[i];
                let ghost before = out@;
                write_line(out, indent, v.name.as_str());
                proof {
                    assert forall|k: int| 0 <= k < v.items@.len() implies type_known(
                        #[trigger] v.items@[k],
                        defs,
                    ) by {
                        assert(adt.variants@[i as int].items@[k] == v.items@[k]);
                    }
                }
                if v.items.len() > 0 {
                    let joined = write_types_joined(&v.items, program, names);
                    out.append("(");
                    out.append(joined.as_str());
                    out.append(")");
                } else {
                    assert(out@ =~= out@ + Seq::<char>::empty());
                }
                out.append(",\n");
                proof {
                    let sub = adt.variants@.subrange(0, i + 1);
                    assert(sub.drop_last() =~= adt.variants@.subrange(0, i as int));
                    assert(out@ =~= before + variant_line(level + 4, *v, defs, *names));
                }
                i += 1;
            }
            proof {
                assert(adt.variants@.subrange(0, i as int) =~= adt.variants@);
            }
            indent.dec();
            write_line(out, indent, "}\n");
            assert(out@ =~= start + typedef_text(*typedef, level, defs, *names));
        },
        TypeDef::Record(record) => {
            indent.inc();
            let body = match &record.kind {
                RecordKind::Normal => {
                    let mut body = String::new();
                    let mut i: usize = 0;
                    proof {
                        assert(record.fields@.subrange(0, 0) =~= Seq::<RecordField>::empty());
                    }
                    while i < record.fields.len()
                        invariant
                            i <= record.fields@.len(),
                            indent.level() == level + 4,
                            defs == program.typedefs.items@,
                            typedef_writable(TypeDef::Record(*record), defs),
                            record.kind is Normal,
                            body@ == field_lines(level + 4, record.fields@.subrange(0, i as int), defs, *names),
                        decreases record.fields@.len() - i,
                    {
                        let f = &record.fields[i];
                        let ghost before = body@;
                        let ty = ir_type_to_rust_type(&f.ty, program, names);
                        write_line(&mut body, indent, "pub ");
                        body.append(f.name.as_str());
                        body.append(": ");
                        body.append(ty.as_str());
                        body.append(",\n");
                        proof {
                            let sub = record.fields@.subrange(0, i + 1);
                            assert(sub.drop_last() =~= record.fields@.subrange(0, i as int));
                            assert(body@ =~= field_lines(level + 4, sub, defs, *names));
                        }
                        i += 1;
                    }
                    proof {
                        assert(record.fields@.subrange(0, i as int) =~= record.fields@);
                    }
                    body
                },
                RecordKind::External(kind, args) => match kind {
                    ExternalDataKind::Int => {
                        let mut body = String::new();
                        write_line(&mut body, indent, "pub value: i64,\n");
                        body
                    },
                    ExternalDataKind::String => {
                        let mut body = String::new();
                        write_line(&mut body, indent, "pub value: std::string::String,\n");
                        body
                    },
                    ExternalDataKind::Float => {
                        let mut body = String::new();
                        write_line(&mut body, indent, "pub value: f64,\n");
                        body
                    },
                    ExternalDataKind::Mapping => {
                        let key_ty = ir_type_to_rust_type(&args[0], program, names);
                        let value_ty = ir_type_to_rust_type(&args[1], program, names);
                        let mut body = String::new();
                        write_line(&mut body, indent, "pub value: std::collections::BTreeMap<");
                        body.append(key_ty.as_str());
                        body.append(", ");
                        body.append(value_ty.as_str());
                        body.append(">,\n");
                        body
                    },
                    ExternalDataKind::Iterator => String::new(),
                    ExternalDataKind::List => {
                        let elem_ty = ir_type_to_rust_type(&args[0], program, names);
                        let mut body = String::new();
                        write_line(&mut body, indent, "pub value: Vec<");
                        body.append(elem_ty.as_str());
                        body.append(">,\n");
                        body
                    },
                },
            };
            indent.dec();
            match &record.kind {
                RecordKind::Normal => write_struct(out, indent, "Clone", record.name.as_str(), body.as_str()),
                RecordKind::External(kind, _) => match kind {
                    ExternalDataKind::Int => write_struct(
                        out,
                        indent,
                        "Clone, PartialEq, Eq, PartialOrd, Ord",
                        "Int",
                        body.as_str(),
                    ),
                    ExternalDataKind::String => write_struct(
                        out,
                        indent,
                        "Clone, PartialEq, Eq, PartialOrd",
                        "String",
                        body.as_str(),
                    ),
                    ExternalDataKind::Float => write_struct(
                        out,
                        indent,
                        "Clone, PartialEq, PartialOrd",
                        "Float",
                        body.as_str(),
                    ),
                    ExternalDataKind::Mapping => write_struct(
                        out,
                        indent,
                        "Clone, PartialEq, Eq, PartialOrd, Ord",
                        record.name.as_str(),
                        body.as_str(),
                    ),
                    _ => write_struct(out, indent, "Clone", record.name.as_str(), body.as_str()),
                },
            }
            proof {
                if record.kind matches RecordKind::External(ExternalDataKind::Iterator, _) {
                    assert(body@ =~= Seq::<char>::empty());
                }
            }
        },
    }
}

/// The item type of the last variant named `Some`, where there is one.
pub open spec fn some_item(vs: Seq<Variant>) -> Option<Type>
    decreases vs.len(),
{
    if vs.len() == 0 {
        None
    } else if vs.last().name@ == "Some"@ {
        Some(vs.last().items@[0])
    } else {
        some_item(vs.drop_last())
    }
}

/// Whether the library function's body names the ordering type.
pub open spec fn needs_ordering(module: Seq<char>, name: Seq<char>) -> bool {
    (module == "Int"@ || module == "Float"@ || module == "String"@) && name == "partialCmp"@
}

/// Whether the library function's body names the optional value type.
pub open spec fn needs_option(module: Seq<char>, name: Seq<char>) -> bool {
    module == "Map"@ && (name == "insert"@ || name == "remove"@)
}

/// The result type is known, and where the body names the ordering type, it
/// is an optional value of it (an enum with a `Some` variant); where the body
/// names the optional value type, it is a record whose second field has it.
pub open spec fn result_type_ready(module: Seq<char>, name: Seq<char>, ty: Type, defs: Map<usize, TypeDef>) -> bool {
    &&& type_known(ty, defs)
    &&& needs_ordering(module, name) ==> {
        &&& ty is Named
        &&& defs[ty->Named_0.id] is Adt
        &&& forall|i: int|
            0 <= i < defs[ty->Named_0.id]->Adt_0.variants@.len() && (
            #[trigger] defs[ty->Named_0.id]->Adt_0.variants@[i]).name@ == "Some"@ ==> defs[ty->Named_0.id]->Adt_0.variants@[i].items@.len()
                >= 1
        &&& some_item(defs[ty->Named_0.id]->Adt_0.variants@) is Some
        &&& type_known(some_item(defs[ty->Named_0.id]->Adt_0.variants@)->0, defs)
    }
    &&& needs_option(module, name) ==> {
        &&& ty is Named
        &&& defs[ty->Named_0.id] is Record
        &&& defs[ty->Named_0.id]->Record_0.fields@.len() >= 2
        &&& type_known(defs[ty->Named_0.id]->Record_0.fields@[1].ty, defs)
    }
}

/// The Rust name of the ordering type, where the body names it.
pub open spec fn ordering_text(
    module: Seq<char>,
    name: Seq<char>,
    ty: Type,
    defs: Map<usize, TypeDef>,
    names: RustNames,
) -> Seq<char> {
    if needs_ordering(module, name) {
        rust_type_text(some_item(defs[ty->Named_0.id]->Adt_0.variants@)->0, defs, names)
    } else {
        Seq::empty()
    }
}

/// The Rust name of the optional value type, where the body names it.
pub open spec fn option_text(
    module: Seq<char>,
    name: Seq<char>,
    ty: Type,
    defs: Map<usize, TypeDef>,
    names: RustNames,
) -> Seq<char> {
    if needs_option(module, name) {
        rust_type_text(defs[ty->Named_0.id]->Record_0.fields@[1].ty, defs, names)
    } else {
        Seq::empty()
    }
}

/// The Rust name of the ordering type that the optional result type of
/// `partialCmp` holds (see [`some_item`]).
fn ordering_type_text(result_ty: &Type, program: &Program, names: &RustNames) -> (r: String)
    requires
        result_ty is Named,
        program.typedefs.items@.contains_key(result_ty->Named_0.id),
        program.typedefs.items@[result_ty->Named_0.id] is Adt,
        ({
            let vs = program.typedefs.items@[result_ty->Named_0.id]->Adt_0.variants@;
            &&& forall|i: int| 0 <= i < vs.len() && (#[trigger] vs[i]).name@ == "Some"@ ==> vs[i].items@.len() >= 1
            &&& some_item(vs) is Some
            &&& type_known(some_item(vs)->0, program.typedefs.items@)
        }),
    ensures
        r@ == rust_type_text(
            some_item(program.typedefs.items@[result_ty->Named_0.id]->Adt_0.variants@)->0,
            program.typedefs.items@,
            *names,
        ),
{
    let id = result_ty.get_typedef_id();
    match program.typedefs.get(id.id) {
        TypeDef::Adt(adt) => {
            let ghost vs = adt.variants@;
            let mut found: Option<Type> = None;
            let mut i: usize = 0;
            proof {
                assert(vs.subrange(0, 0) =~= Seq::<Variant>::empty());
            }
            while i < adt.variants.len()
                invariant
                    i <= vs.len(),
                    vs == adt.variants@,
                    forall|j: int| 0 <= j < vs.len() && (#[trigger] vs[j]).name@ == "Some"@ ==> vs[j].items@.len() >= 1,
                    found == some_item(vs.subrange(0, i as int)),
                decreases vs.len() - i,
            {
                let v = &adt.variants[i];
                proof {
                    let sub = vs.subrange(0, i + 1);
                    assert(sub.drop_last() =~= vs.subrange(0, i as int));
                    assert(sub.last() == vs[i as int]);
                }
                if str_eq(v.name.as_str(), "Some") {
                    found = Some(v.items[0].clone_type());
                }
                i += 1;
            }
            proof {
                assert(vs.subrange(0, i as int) =~= vs);
            }
            match found {
                Some(t) => ir_type_to_rust_type(&t, program, names),
                None => {
                    proof {
                        assert(false);
                    }
                    String::new()
                },
            }
        },
        TypeDef::Record(_) => {
            proof {
                assert(false);
            }
            String::new()
        },
    }
}

/// The Rust name of the optional value type that the second field of the
/// result record of a map update holds.
fn option_type_text(result_ty: &Type, program: &Program, names: &RustNames) -> (r: String)
    requires
        result_ty is Named,
        program.typedefs.items@.contains_key(result_ty->Named_0.id),
        program.typedefs.items@[result_ty->Named_0.id] is Record,
        program.typedefs.items@[result_ty->Named_0.id]->Record_0.fields@.len() >= 2,
        type_known(program.typedefs.items@[result_ty->Named_0.id]->Record_0.fields@[1].ty, program.typedefs.items@),
    ensures
        r@ == rust_type_text(
            program.typedefs.items@[result_ty->Named_0.id]->Record_0.fields@[1].ty,
            program.typedefs.items@,
            *names,
        ),
{
    let id = result_ty.get_typedef_id();
    match program.typedefs.get(id.id) {
        TypeDef::Record(record) => ir_type_to_rust_type(&record.fields[1].ty, program, names),
        TypeDef::Adt(_) => {
            proof {
                assert(false);
            }
            String::new()
        },
    }
}

/// Writes the body of the library function `function_name` of `module`,
/// whose result type is `result_ty` (see [`builtin_text`]): the Rust names of
/// the result type, and of the ordering or optional value type where the body
/// names one, come from the program.
pub fn write_builtin(
    module: &str,
    function_name: &str,
    result_ty: &Type,
    program: &Program,
    names: &RustNames,
    arg_types: &Vec<String>,
    indent: &mut Indent,
    out: &mut String,
)
    requires
        is_builtin(module@, function_name@),
        module@ == "Std.Util"@ && function_name@ == "assert"@ ==> arg_types@.len() >= 1,
        old(indent).level() + 8 <= usize::MAX,
        result_type_ready(module@, function_name@, *result_ty, program.typedefs.items@),
    ensures
        final(indent).level() == old(indent).level(),
        final(out)@ == old(out)@ + builtin_text(
            old(indent).level(),
            module@,
            function_name@,
            rust_type_text(*result_ty, program.typedefs.items@, *names),
            ordering_text(module@, function_name@, *result_ty, program.typedefs.items@, *names),
            option_text(module@, function_name@, *result_ty, program.typedefs.items@, *names),
            if arg_types@.len() > 0 { arg_types@[0]@ } else { Seq::empty() },
        ),
{
    let result_ty_str = ir_type_to_rust_type(result_ty, program, names);
    let ordering = if (str_eq(module, "Int") || str_eq(module, "Float") || str_eq(module, "String")) && str_eq(
        function_name,
        "partialCmp",
    ) {
        ordering_type_text(result_ty, program, names)
    } else {
        String::new()
    };
    let option = if str_eq(module, "Map") && (str_eq(function_name, "insert") || str_eq(function_name, "remove")) {
        option_type_text(result_ty, program, names)
    } else {
        String::new()
    };
    generate_builtin(
        module,
        function_name,
        out,
        indent,
        result_ty_str.as_str(),
        ordering.as_str(),
        option.as_str(),
        arg_types,
    );
}

/// A record of built-in data `kind` (with no further type arguments needed).
pub open spec fn builtin_record(id: TypeDefId, module: String, name: String, fields: Vec<RecordField>, kind: ExternalDataKind, args: Vec<Type>) -> TypeDef {
    TypeDef::Record(crate::mir::data::Record { id, module, name, fields, kind: RecordKind::External(kind, args) })
}

/// The Rust struct that holds one `value` field of type `ty`.
pub open spec fn value_struct(level: int, derives: Seq<char>, name: Seq<char>, ty: Seq<char>) -> Seq<char> {
    spaces(level) + "#[derive("@ + derives + ")]\n"@ + spaces(level) + "pub struct "@ + name + " {\n"@ + spaces(level + 4)
        + "pub value: "@ + ty + ",\n"@ + spaces(level) + "}\n"@
}

/// The records of built-in numbers and strings become Rust structs named
/// after the data, whatever the record is called, holding the value in the
/// matching Rust type: `i64` for integers, `f64` for floats (which have no
/// total order, so no `Eq` or `Ord`), and `std::string::String` for strings
/// (compared, but not totally ordered, by the derives).
pub proof fn lemma_builtin_value_structs(
    level: int,
    id: TypeDefId,
    module: String,
    name: String,
    fields: Vec<RecordField>,
    args: Vec<Type>,
    defs: Map<usize, TypeDef>,
    names: RustNames,
)
    ensures
        typedef_text(builtin_record(id, module, name, fields, ExternalDataKind::Int, args), level, defs, names)
            == value_struct(level, "Clone, PartialEq, Eq, PartialOrd, Ord"@, "Int"@, "i64"@),
        typedef_text(builtin_record(id, module, name, fields, ExternalDataKind::Float, args), level, defs, names)
            == value_struct(level, "Clone, PartialEq, PartialOrd"@, "Float"@, "f64"@),
        typedef_text(builtin_record(id, module, name, fields, ExternalDataKind::String, args), level, defs, names)
            == value_struct(level, "Clone, PartialEq, Eq, PartialOrd"@, "String"@, "std::string::String"@),
{
    reveal_strlit("pub value: i64,\n");
    reveal_strlit("pub value: f64,\n");
    reveal_strlit("pub value: std::string::String,\n");
    reveal_strlit("pub value: ");
    reveal_strlit(",\n");
    reveal_strlit("i64");
    reveal_strlit("f64");
    reveal_strlit("std::string::String");
    assert("pub value: i64,\n"@ =~= "pub value: "@ + "i64"@ + ",\n"@);
    assert("pub value: f64,\n"@ =~= "pub value: "@ + "f64"@ + ",\n"@);
    assert("pub value: std::string::String,\n"@ =~= "pub value: "@ + "std::string::String"@ + ",\n"@);
    assert(value_struct(level, "Clone, PartialEq, Eq, PartialOrd, Ord"@, "Int"@, "i64"@) =~= struct_text(
        level,
        "Clone, PartialEq, Eq, PartialOrd, Ord"@,
        "Int"@,
        spaces(level + 4) + "pub value: i64,\n"@,
    ));
    assert(value_struct(level, "Clone, PartialEq, PartialOrd"@, "Float"@, "f64"@) =~= struct_text(
        level,
        "Clone, PartialEq, PartialOrd"@,
        "Float"@,
        spaces(level + 4) + "pub value: f64,\n"@,
    ));
    assert(value_struct(level, "Clone, PartialEq, Eq, PartialOrd"@, "String"@, "std::string::String"@) =~= struct_text(
        level,
        "Clone, PartialEq, Eq, PartialOrd"@,
        "String"@,
        spaces(level + 4) + "pub value: std::string::String,\n"@,
    ));
}

/// The texts one after the other.
pub open spec fn concat(ss: Seq<Seq<char>>) -> Seq<char>
    decreases ss.len(),
{
    if ss.len() == 0 {
        Seq::empty()
    } else {
        concat(ss.drop_last()) + ss.last()
    }
}

/// The line of an enum variant: its name, its item types in brackets and
/// separated by commas where it has items, and a comma.
pub open spec fn enum_line(level: int, v: Variant, defs: Map<usize, TypeDef>, names: RustNames) -> Seq<char> {
    if v.items@.len() == 0 {
        spaces(level) + v.name@ + ",\n"@
    } else {
        spaces(level) + v.name@ + "("@ + join(rust_type_texts(v.items@, defs, names), ", "@) + "),\n"@
    }
}

/// The line of a struct field: public, with its name and its Rust type.
pub open spec fn field_line(level: int, f: RecordField, defs: Map<usize, TypeDef>, names: RustNames) -> Seq<char> {
    spaces(level) + "pub "@ + f.name@ + ": "@ + rust_type_text(f.ty, defs, names) + ",\n"@
}

proof fn lemma_variant_lines(level: int, vs: Seq<Variant>, defs: Map<usize, TypeDef>, names: RustNames)
    ensures
        variant_lines(level, vs, defs, names) == concat(Seq::new(vs.len(), |k: int| enum_line(level, vs[k], defs, names))),
    decreases vs.len(),
{
    reveal_strlit(",\n");
    reveal_strlit("),\n");
    reveal_strlit(")");
    if vs.len() > 0 {
        lemma_variant_lines(level, vs.drop_last(), defs, names);
        let lines = Seq::new(vs.len(), |k: int| enum_line(level, vs[k], defs, names));
        assert(lines.drop_last() =~= Seq::new(
            vs.drop_last().len(),
            |k: int| enum_line(level, vs.drop_last()[k], defs, names),
        ));
        assert(")"@ + ",\n"@ =~= "),\n"@);
        assert(variant_line(level, vs.last(), defs, names) =~= enum_line(level, vs.last(), defs, names));
    }
}

proof fn lemma_field_lines(level: int, fs: Seq<RecordField>, defs: Map<usize, TypeDef>, names: RustNames)
    ensures
        field_lines(level, fs, defs, names) == concat(Seq::new(fs.len(), |k: int| field_line(level, fs[k], defs, names))),
    decreases fs.len(),
{
    if fs.len() > 0 {
        lemma_field_lines(level, fs.drop_last(), defs, names);
        let lines = Seq::new(fs.len(), |k: int| field_line(level, fs[k], defs, names));
        assert(lines.drop_last() =~= Seq::new(
            fs.drop_last().len(),
            |k: int| field_line(level, fs.drop_last()[k], defs, names),
        ));
        assert(field_lines(level, fs, defs, names) =~= concat(lines));
    }
}

/// An enum definition becomes a Rust enum of the same name with one line per
/// variant, in order, deriving only `Clone`; a record defined by its fields
/// becomes a Rust struct of the same name with one public field per field,
/// in order, each with the Rust type of the field.
pub proof fn lemma_enum_and_struct(def: TypeDef, level: int, defs: Map<usize, TypeDef>, names: RustNames)
    ensures
        def matches TypeDef::Adt(a) ==> typedef_text(def, level, defs, names) == spaces(level) + "#[derive(Clone)]\n"@
            + spaces(level) + "pub enum "@ + a.name@ + " {\n"@ + concat(
            Seq::new(a.variants@.len(), |k: int| enum_line(level + 4, a.variants@[k], defs, names)),
        ) + spaces(level) + "}\n"@,
        (def is Record && def->Record_0.kind is Normal) ==> typedef_text(def, level, defs, names) == spaces(level)
            + "#[derive(Clone)]\n"@ + spaces(level) + "pub struct "@ + def->Record_0.name@ + " {\n"@ + concat(
            Seq::new(
                def->Record_0.fields@.len(),
                |k: int| field_line(level + 4, def->Record_0.fields@[k], defs, names),
            ),
        ) + spaces(level) + "}\n"@,
{
    reveal_strlit("#[derive(");
    reveal_strlit(")]\n");
    reveal_strlit("Clone");
    reveal_strlit("#[derive(Clone)]\n");
    assert("#[derive("@ + "Clone"@ + ")]\n"@ =~= "#[derive(Clone)]\n"@);
    match def {
        TypeDef::Adt(a) => {
            lemma_variant_lines(level + 4, a.variants@, defs, names);
        },
        TypeDef::Record(r) => {
            lemma_field_lines(level + 4, r.fields@, defs, names);
        },
    }
}

/// The Rust type of a type definition is the definition's name in its
/// module, the module named with underscores for dots; that of a function
/// type is a boxed callable of the function trait, from the argument type to
/// the result type.
pub proof fn lemma_rust_types(ty: Type, defs: Map<usize, TypeDef>, names: RustNames)
    ensures
        ty matches Type::Named(id) ==> rust_type_text(ty, defs, names) == "crate::"@ + module_name_of(
            def_path(defs[id.id]).0,
        ) + "::"@ + def_path(defs[id.id]).1,
        ty matches Type::Function(from, to) ==> rust_type_text(ty, defs, names) == "Box<dyn ::crate::"@
            + names.internal_module@ + "::"@ + names.function_trait@ + "<"@ + rust_type_text(*from, defs, names)
            + ", "@ + rust_type_text(*to, defs, names) + ">>"@,
{
}

/// The records of built-in maps and lists hold a `BTreeMap` from the Rust
/// type of the first type argument to that of the second, and a `Vec` of the
/// Rust type of the element.
pub proof fn lemma_builtin_collections(
    level: int,
    id: TypeDefId,
    module: String,
    name: String,
    fields: Vec<RecordField>,
    args: Vec<Type>,
    defs: Map<usize, TypeDef>,
    names: RustNames,
)
    ensures
        args@.len() >= 2 ==> typedef_text(builtin_record(id, module, name, fields, ExternalDataKind::Mapping, args), level, defs, names)
            == value_struct(
            level,
            "Clone, PartialEq, Eq, PartialOrd, Ord"@,
            name@,
            "std::collections::BTreeMap<"@ + rust_type_text(args@[0], defs, names) + ", "@ + rust_type_text(
                args@[1],
                defs,
                names,
            ) + ">"@,
        ),
        args@.len() >= 1 ==> typedef_text(builtin_record(id, module, name, fields, ExternalDataKind::List, args), level, defs, names)
            == value_struct(level, "Clone"@, name@, "Vec<"@ + rust_type_text(args@[0], defs, names) + ">"@),
{
    reveal_strlit("pub value: std::collections::BTreeMap<");
    reveal_strlit("pub value: Vec<");
    reveal_strlit("pub value: ");
    reveal_strlit("std::collections::BTreeMap<");
    reveal_strlit("Vec<");
    reveal_strlit(">,\n");
    reveal_strlit(">");
    reveal_strlit(",\n");
    assert(">"@ + ",\n"@ =~= ">,\n"@);
    assert("pub value: "@ + "std::collections::BTreeMap<"@ =~= "pub value: std::collections::BTreeMap<"@);
    assert("pub value: "@ + "Vec<"@ =~= "pub value: Vec<"@);
    if args@.len() >= 2 {
        let k = rust_type_text(args@[0], defs, names);
        let v = rust_type_text(args@[1], defs, names);
        assert(value_struct(level, "Clone, PartialEq, Eq, PartialOrd, Ord"@, name@, "std::collections::BTreeMap<"@ + k
            + ", "@ + v + ">"@) =~= struct_text(
            level,
            "Clone, PartialEq, Eq, PartialOrd, Ord"@,
            name@,
            spaces(level + 4) + "pub value: std::collections::BTreeMap<"@ + k + ", "@ + v + ">,\n"@,
        ));
    }
    if args@.len() >= 1 {
        let t = rust_type_text(args@[0], defs, names);
        assert(value_struct(level, "Clone"@, name@, "Vec<"@ + t + ">"@) =~= struct_text(
            level,
            "Clone"@,
            name@,
            spaces(level + 4) + "pub value: Vec<"@ + t + ">,\n"@,
        ));
    }
}

} // verus!
