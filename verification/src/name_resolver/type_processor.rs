use crate::ir::class::ClassId;
use crate::ir::data::TypeDef;
use crate::ir::data::TypeDefId;
use crate::ir::program::Program as IrProgram;
use crate::ir::type_signature::SigModel;
use crate::ir::type_signature::TypeSignature as IrTypeSignature;
use crate::ir::type_signature::TypeSignatureId as IrTypeSignatureId;
use crate::location::ItemInfo;
use crate::location::LocationId;
use crate::name_resolver::error::ResolverError;
use crate::name_resolver::import::ImportedItemInfo;
use crate::name_resolver::item::Item;
use crate::name_resolver::module::import_entries;
use crate::name_resolver::module::Module;
use crate::name_resolver::type_arg_resolver::TypeArgResolver;
use crate::syntax::program::Program;
use crate::syntax::types::TypeSignature as AstTypeSignature;
use crate::syntax::types::TypeSignatureId;
use crate::util::assoc_map;
use crate::util::distinct_keys;
use crate::util::lemma_assoc_contains;
use crate::util::lemma_assoc_index;
use crate::util::str_eq;
use vstd::prelude::*;

verus! {

/// What resolving a type signature reads: the parsed signatures, the names
/// the module imports, the type definitions and the declared type arguments.
pub struct SigEnv {
    pub signatures: Map<usize, ItemInfo<AstTypeSignature>>,
    pub imported: Map<Seq<char>, Seq<ImportedItemInfo>>,
    pub typedefs: Map<usize, TypeDef>,
    pub type_args: Map<Seq<char>, (usize, Seq<ClassId>)>,
}

/// What resolving a type signature changes: the counter of signature
/// identifiers, the resolved signatures and the errors.
pub struct SigState {
    pub next: nat,
    pub sigs: Map<usize, (SigModel, LocationId)>,
    pub errors: Seq<ResolverError>,
}

/// The resolved signatures as plain values, with their locations.
pub open spec fn sig_models(m: Map<usize, ItemInfo<IrTypeSignature>>) -> Map<usize, (SigModel, LocationId)> {
    Map::new(|k: usize| m.contains_key(k), |k: usize| (m[k].item.model(), m[k].location_id))
}

pub open spec fn sig_env(program: &Program, ir_program: &IrProgram, module: &Module, resolver: &TypeArgResolver) -> SigEnv {
    SigEnv {
        signatures: program.type_signatures.items@,
        imported: module.imported(),
        typedefs: ir_program.typedefs.items@,
        type_args: resolver@,
    }
}

pub open spec fn sig_state(ir_program: &IrProgram, errors: &Vec<ResolverError>) -> SigState {
    SigState {
        next: ir_program.type_signatures.id.value as nat,
        sigs: sig_models(ir_program.type_signatures.items@),
        errors: errors@,
    }
}

/// The state with the signature `m` filed under the next identifier, which
/// comes back.
pub open spec fn add_sig(s: SigState, m: SigModel, loc: LocationId) -> (Option<IrTypeSignatureId>, SigState) {
    (
        Some(IrTypeSignatureId { id: s.next as usize }),
        SigState { next: s.next + 1, sigs: s.sigs.insert(s.next as usize, (m, loc)), errors: s.errors },
    )
}

/// The state with the error `e` added.
pub open spec fn add_error(s: SigState, e: ResolverError) -> SigState {
    SigState { errors: s.errors.push(e), ..s }
}

/// The state with the next identifier taken and nothing filed under it.
pub open spec fn reserve(s: SigState) -> (IrTypeSignatureId, SigState) {
    (IrTypeSignatureId { id: s.next as usize }, SigState { next: s.next + 1, ..s })
}

/// The signatures a parsed signature is made of.
pub open spec fn sig_children(sig: AstTypeSignature) -> Seq<TypeSignatureId> {
    match sig {
        AstTypeSignature::Named(_, items) => items@,
        AstTypeSignature::Variant(_, items) => items@,
        AstTypeSignature::Tuple(items) => items@,
        AstTypeSignature::Function(from, to) => seq![from, to],
        _ => Seq::empty(),
    }
}

/// Each parsed signature is made of signatures parsed before it.
pub open spec fn sigs_well_founded(env: SigEnv) -> bool {
    forall|k: usize, i: int|
        #![trigger sig_children(env.signatures[k].item)[i]]
        env.signatures.contains_key(k) && 0 <= i < sig_children(env.signatures[k].item).len() ==> {
            let c = sig_children(env.signatures[k].item)[i];
            c.id < k && env.signatures.contains_key(c.id)
        }
}

/// Each imported name stands for at least one item, and the first item of a
/// name, where it is a data type, has its definition, of its kind.
pub open spec fn imports_consistent(env: SigEnv) -> bool {
    forall|name: Seq<char>|
        #![trigger env.imported[name]]
        env.imported.contains_key(name) ==> {
            let items = env.imported[name];
            &&& items.len() >= 1
            &&& items[0].item is Adt ==> {
                let t = items[0].item->Adt_1;
                env.typedefs.contains_key(t.id) && env.typedefs[t.id] is Adt
            }
            &&& items[0].item is Record ==> {
                let t = items[0].item->Record_1;
                env.typedefs.contains_key(t.id) && env.typedefs[t.id] is Record
            }
        }
}

/// Resolving the signature `id`: its identifier in the intermediate
/// representation, or none where an error was found in it.
pub open spec fn run_sig(env: SigEnv, id: TypeSignatureId, s: SigState) -> (Option<IrTypeSignatureId>, SigState)
    decreases id.id, 2nat, 0nat,
{
    if !env.signatures.contains_key(id.id) {
        (None, s)
    } else {
        let info = env.signatures[id.id];
        let loc = info.location_id;
        match info.item {
            AstTypeSignature::Nothing => add_sig(s, SigModel::Nothing, loc),
            AstTypeSignature::TypeArg(name) => if env.type_args.contains_key(name@) {
                add_sig(s, SigModel::TypeArgument(env.type_args[name@].0, name@, env.type_args[name@].1), loc)
            } else {
                (None, add_error(s, ResolverError::UnknownTypeArg(name, loc)))
            },
            AstTypeSignature::Variant(name, items) => {
                let r = run_strict(env, items@, id.id, s);
                match r.0 {
                    Some(ids) => add_sig(r.1, SigModel::Variant(name@, ids), loc),
                    None => (None, r.1),
                }
            },
            AstTypeSignature::Named(name, args) => if name@ == "Int"@ {
                add_sig(s, SigModel::Int, loc)
            } else if name@ == "Bool"@ {
                add_sig(s, SigModel::Bool, loc)
            } else if name@ == "String"@ {
                add_sig(s, SigModel::String, loc)
            } else {
                run_named(env, name, args@, loc, id.id, s)
            },
            AstTypeSignature::Tuple(items) => {
                let r = run_lenient(env, items@, id.id, s);
                add_sig(r.1, SigModel::Tuple(r.0), loc)
            },
            AstTypeSignature::Function(from, to) => if from.id < id.id && to.id < id.id {
                let a = run_sig(env, from, s);
                let f = match a.0 {
                    Some(x) => (x, a.1),
                    None => reserve(a.1),
                };
                let b = run_sig(env, to, f.1);
                let t = match b.0 {
                    Some(x) => (x, b.1),
                    None => reserve(b.1),
                };
                add_sig(t.1, SigModel::Function(f.0, t.0), loc)
            } else {
                (None, s)
            },
            AstTypeSignature::Wildcard => add_sig(s, SigModel::Wildcard, loc),
        }
    }
}

/// Resolving the signatures one after the other, stopping at the first that
/// fails; their identifiers where none fails.
pub open spec fn run_strict(env: SigEnv, items: Seq<TypeSignatureId>, bound: usize, s: SigState) -> (
    Option<Seq<IrTypeSignatureId>>,
    SigState,
)
    decreases bound, 0nat, items.len(),
{
    if items.len() == 0 {
        (Some(Seq::empty()), s)
    } else if items.last().id < bound {
        let r = run_strict(env, items.drop_last(), bound, s);
        match r.0 {
            None => (None, r.1),
            Some(ids) => {
                let x = run_sig(env, items.last(), r.1);
                match x.0 {
                    None => (None, x.1),
                    Some(i) => (Some(ids.push(i)), x.1),
                }
            },
        }
    } else {
        (None, s)
    }
}

/// Resolving the signatures one after the other; the identifiers of those
/// that did not fail.
pub open spec fn run_lenient(env: SigEnv, items: Seq<TypeSignatureId>, bound: usize, s: SigState) -> (
    Seq<IrTypeSignatureId>,
    SigState,
)
    decreases bound, 0nat, items.len(),
{
    if items.len() == 0 {
        (Seq::empty(), s)
    } else if items.last().id < bound {
        let r = run_lenient(env, items.drop_last(), bound, s);
        let x = run_sig(env, items.last(), r.1);
        match x.0 {
            None => (r.0, x.1),
            Some(i) => (r.0.push(i), x.1),
        }
    } else {
        (Seq::empty(), s)
    }
}

/// Resolving the type name `name` applied to the signatures `args`: the name
/// must stand for exactly one item, the arguments must resolve, the item
/// must be a data type and take as many arguments.
pub open spec fn run_named(
    env: SigEnv,
    name: String,
    args: Seq<TypeSignatureId>,
    loc: LocationId,
    parent: usize,
    s: SigState,
) -> (Option<IrTypeSignatureId>, SigState)
    decreases parent, 1nat, 0nat,
{
    if !env.imported.contains_key(name@) {
        (None, add_error(s, ResolverError::UnknownTypeName(name, loc)))
    } else if env.imported[name@].len() > 1 {
        (None, add_error(s, ResolverError::AmbiguousName(name, loc)))
    } else {
        let r = run_strict(env, args, parent, s);
        match r.0 {
            None => (None, r.1),
            Some(ids) => match env.imported[name@][0].item {
                Item::Adt(_, t) => named_sig(env.typedefs[t.id], t, name, ids, loc, r.1),
                Item::Record(_, t) => named_sig(env.typedefs[t.id], t, name, ids, loc, r.1),
                _ => (None, add_error(r.1, ResolverError::NameNotType(name, loc))),
            },
        }
    }
}

/// The signature of the data type `td` applied to `ids`, where their numbers
/// agree.
pub open spec fn named_sig(
    td: TypeDef,
    t: TypeDefId,
    name: String,
    ids: Seq<IrTypeSignatureId>,
    loc: LocationId,
    s: SigState,
) -> (Option<IrTypeSignatureId>, SigState) {
    if td.arg_count() != ids.len() {
        (
            None,
            add_error(
                s,
                ResolverError::IncorrectTypeArgumentCount(name, td.arg_count() as usize, ids.len() as usize, loc),
            ),
        )
    } else {
        add_sig(s, SigModel::Named(td.name()@, t, ids), loc)
    }
}

/// Resolving a signature only moves the identifier counter forward.
pub proof fn lemma_sig_grows(env: SigEnv, id: TypeSignatureId, s: SigState)
    ensures
        run_sig(env, id, s).1.next >= s.next,
    decreases id.id, 2nat, 0nat,
{
    if env.signatures.contains_key(id.id) {
        match env.signatures[id.id].item {
            AstTypeSignature::Variant(_, items) => lemma_strict_grows(env, items@, id.id, s),
            AstTypeSignature::Named(name, args) => lemma_named_grows(env, name, args@, env.signatures[id.id].location_id, id.id, s),
            AstTypeSignature::Tuple(items) => lemma_lenient_grows(env, items@, id.id, s),
            AstTypeSignature::Function(from, to) => if from.id < id.id && to.id < id.id {
                lemma_sig_grows(env, from, s);
                let a = run_sig(env, from, s);
                let f = match a.0 {
                    Some(x) => (x, a.1),
                    None => reserve(a.1),
                };
                lemma_sig_grows(env, to, f.1);
            },
            _ => {},
        }
    }
}

/// Resolving signatures one after the other, stopping at a failure, only
/// moves the counter forward.
pub proof fn lemma_strict_grows(env: SigEnv, items: Seq<TypeSignatureId>, bound: usize, s: SigState)
    ensures
        run_strict(env, items, bound, s).1.next >= s.next,
    decreases bound, 0nat, items.len(),
{
    if items.len() > 0 && items.last().id < bound {
        lemma_strict_grows(env, items.drop_last(), bound, s);
        let r = run_strict(env, items.drop_last(), bound, s);
        lemma_sig_grows(env, items.last(), r.1);
    }
}

/// Resolving signatures one after the other only moves the counter forward.
pub proof fn lemma_lenient_grows(env: SigEnv, items: Seq<TypeSignatureId>, bound: usize, s: SigState)
    ensures
        run_lenient(env, items, bound, s).1.next >= s.next,
    decreases bound, 0nat, items.len(),
{
    if items.len() > 0 && items.last().id < bound {
        lemma_lenient_grows(env, items.drop_last(), bound, s);
        let r = run_lenient(env, items.drop_last(), bound, s);
        lemma_sig_grows(env, items.last(), r.1);
    }
}

/// Resolving a type name only moves the counter forward.
pub proof fn lemma_named_grows(
    env: SigEnv,
    name: String,
    args: Seq<TypeSignatureId>,
    loc: LocationId,
    parent: usize,
    s: SigState,
)
    ensures
        run_named(env, name, args, loc, parent, s).1.next >= s.next,
    decreases parent, 1nat, 0nat,
{
    if env.imported.contains_key(name@) && env.imported[name@].len() <= 1 {
        lemma_strict_grows(env, args, parent, s);
    }
}

/// Each signature that an earlier part of a list stops at ends the list
/// there too; otherwise the whole list takes the counter at least as far.
pub proof fn lemma_strict_prefix(env: SigEnv, items: Seq<TypeSignatureId>, k: int, bound: usize, s: SigState)
    requires
        0 <= k <= items.len(),
        forall|i: int| 0 <= i < items.len() ==> (#[trigger] items[i]).id < bound,
    ensures
        ({
            let pre = run_strict(env, items.subrange(0, k), bound, s);
            let all = run_strict(env, items, bound, s);
            &&& pre.0 is None ==> all == pre
            &&& pre.0 is Some ==> all.1.next >= pre.1.next
        }),
    decreases items.len(),
{
    if k == items.len() {
        assert(items.subrange(0, k) =~= items);
    } else {
        let dl = items.drop_last();
        assert(dl.subrange(0, k) =~= items.subrange(0, k));
        assert forall|i: int| 0 <= i < dl.len() implies (#[trigger] dl[i]).id < bound by {
            assert(dl[i] == items[i]);
        }
        lemma_strict_prefix(env, dl, k, bound, s);
        assert(items[items.len() - 1] == items.last());
        let r = run_strict(env, dl, bound, s);
        if r.0 is Some {
            lemma_sig_grows(env, items.last(), r.1);
        }
    }
}

/// The whole list takes the counter at least as far as any part of it.
pub proof fn lemma_lenient_prefix(env: SigEnv, items: Seq<TypeSignatureId>, k: int, bound: usize, s: SigState)
    requires
        0 <= k <= items.len(),
        forall|i: int| 0 <= i < items.len() ==> (#[trigger] items[i]).id < bound,
    ensures
        run_lenient(env, items, bound, s).1.next >= run_lenient(env, items.subrange(0, k), bound, s).1.next,
    decreases items.len(),
{
    if k == items.len() {
        assert(items.subrange(0, k) =~= items);
    } else {
        let dl = items.drop_last();
        assert(dl.subrange(0, k) =~= items.subrange(0, k));
        assert forall|i: int| 0 <= i < dl.len() implies (#[trigger] dl[i]).id < bound by {
            assert(dl[i] == items[i]);
        }
        lemma_lenient_prefix(env, dl, k, bound, s);
        assert(items[items.len() - 1] == items.last());
        let r = run_lenient(env, dl, bound, s);
        lemma_sig_grows(env, items.last(), r.1);
    }
}

/// What resolving a signature needs of its inputs: signatures made of earlier
/// ones, imports that agree with the type definitions, one entry per
/// imported name, and a well-formed resolver.
pub open spec fn ready(program: &Program, ir_program: &IrProgram, module: &Module, resolver: &TypeArgResolver) -> bool {
    let env = sig_env(program, ir_program, module, resolver);
    &&& sigs_well_founded(env)
    &&& imports_consistent(env)
    &&& distinct_keys(import_entries(module.imported_items@))
    &&& resolver.wf()
}

/// Files `sig` under a fresh identifier, which it returns.
fn add_signature(ir_program: &mut IrProgram, sig: IrTypeSignature, location_id: LocationId) -> (r: IrTypeSignatureId)
    requires
        old(ir_program).type_signatures.id.value < usize::MAX,
    ensures
        r.id == old(ir_program).type_signatures.id.value,
        final(ir_program).type_signatures.id.value == old(ir_program).type_signatures.id.value + 1,
        sig_models(final(ir_program).type_signatures.items@) == sig_models(old(ir_program).type_signatures.items@).insert(
            r.id,
            (sig.model(), location_id),
        ),
        final(ir_program).exprs == old(ir_program).exprs,
        final(ir_program).patterns == old(ir_program).patterns,
        final(ir_program).typedefs == old(ir_program).typedefs,
{
    let ghost model = sig.model();
    let id = ir_program.type_signatures.get_id();
    let ghost before = ir_program.type_signatures.items@;
    ir_program.type_signatures.add_item(id, ItemInfo::new(sig, location_id));
    assert(sig_models(ir_program.type_signatures.items@) =~= sig_models(before).insert(id, (model, location_id)));
    IrTypeSignatureId { id: id }
}

/// The position of `name` in the import list of the module, if it is there.
fn find_import(module: &Module, name: &String) -> (r: Option<usize>)
    requires
        distinct_keys(import_entries(module.imported_items@)),
    ensures
        match r {
            Some(i) => i < module.imported_items@.len() && module.imported().contains_key(name@)
                && module.imported()[name@] == module.imported_items@[i as int].1@,
            None => !module.imported().contains_key(name@),
        },
{
    let ghost entries = import_entries(module.imported_items@);
    let mut i: usize = 0;
    while i < module.imported_items.len()
        invariant
            i <= module.imported_items@.len(),
            entries == import_entries(module.imported_items@),
            distinct_keys(entries),
            forall|j: int| 0 <= j < i ==> (#[trigger] entries[j]).0 != name@,
        decreases module.imported_items@.len() - i,
    {
        if str_eq(module.imported_items[i].0.as_str(), name.as_str()) {
            proof {
                lemma_assoc_index(entries, i as int);
            }
            return Some(i);
        }
        i += 1;
    }
    proof {
        lemma_assoc_contains(entries, name@);
        if assoc_map(entries).contains_key(name@) {
            let j = choose|j: int| 0 <= j < entries.len() && (#[trigger] entries[j]).0 == name@;
            assert(entries[j].0 != name@);
        }
    }
    None
}

/// Resolves the type signature `type_signature_id` of the module into the
/// intermediate representation (see [`run_sig`]): its identifier there, or
/// `None` where an error was found in it, which is added to `errors`.
pub fn process_type_signature(
    type_signature_id: &TypeSignatureId,
    program: &Program,
    ir_program: &mut IrProgram,
    module: &Module,
    type_arg_resolver: &mut TypeArgResolver,
    errors: &mut Vec<ResolverError>,
) -> (r: Option<IrTypeSignatureId>)
    requires
        ready(program, old(ir_program), module, old(type_arg_resolver)),
        program.type_signatures.items@.contains_key(type_signature_id.id),
        run_sig(
            sig_env(program, old(ir_program), module, old(type_arg_resolver)),
            *type_signature_id,
            sig_state(old(ir_program), old(errors)),
        ).1.next <= usize::MAX,
    ensures
        *final(type_arg_resolver) == *old(type_arg_resolver),
        final(ir_program).exprs == old(ir_program).exprs,
        final(ir_program).patterns == old(ir_program).patterns,
        final(ir_program).typedefs == old(ir_program).typedefs,
        run_sig(
            sig_env(program, old(ir_program), module, old(type_arg_resolver)),
            *type_signature_id,
            sig_state(old(ir_program), old(errors)),
        ) == (r, sig_state(final(ir_program), final(errors))),
    decreases type_signature_id.id, 2nat, 0nat,
{
    let ghost env = sig_env(program, ir_program, module, type_arg_resolver);
    let ghost s0 = sig_state(ir_program, errors);
    let ghost id = type_signature_id.id;
    proof {
        lemma_sig_grows(env, *type_signature_id, s0);
    }
    let info = program.type_signatures.get(type_signature_id.id);
    let location_id = info.location_id;
    match &info.item {
        AstTypeSignature::Nothing => Some(add_signature(ir_program, IrTypeSignature::Nothing, location_id)),
        AstTypeSignature::TypeArg(name) => match type_arg_resolver.resolve_arg(name) {
            Some(arg) => Some(
                add_signature(ir_program, IrTypeSignature::TypeArgument(arg.index, name.clone(), arg.constraints), location_id),
            ),
            None => {
                errors.push(ResolverError::UnknownTypeArg(name.clone(), location_id));
                None
            },
        },
        AstTypeSignature::Variant(name, items) => {
            proof {
                assert forall|i: int| 0 <= i < items@.len() implies (#[trigger] items@[i]).id < id
                    && env.signatures.contains_key(items@[i].id) by {
                    assert(sig_children(env.signatures[id].item)[i] == items@[i]);
                }
                lemma_strict_grows(env, items@, id, s0);
            }
            match process_items_strict(items, Ghost(id), program, ir_program, module, type_arg_resolver, errors) {
                Some(ids) => Some(add_signature(ir_program, IrTypeSignature::Variant(name.clone(), ids), location_id)),
                None => None,
            }
        },
        AstTypeSignature::Named(name, args) => {
            if str_eq(name.as_str(), "Int") {
                Some(add_signature(ir_program, IrTypeSignature::Int, location_id))
            } else if str_eq(name.as_str(), "Bool") {
                Some(add_signature(ir_program, IrTypeSignature::Bool, location_id))
            } else if str_eq(name.as_str(), "String") {
                Some(add_signature(ir_program, IrTypeSignature::String, location_id))
            } else {
                proof {
                    assert forall|i: int| 0 <= i < args@.len() implies (#[trigger] args@[i]).id < id
                        && env.signatures.contains_key(args@[i].id) by {
                        assert(sig_children(env.signatures[id].item)[i] == args@[i]);
                    }
                }
                process_named_type(name, args, location_id, Ghost(id), program, ir_program, module, type_arg_resolver, errors)
            }
        },
        AstTypeSignature::Tuple(items) => {
            proof {
                assert forall|i: int| 0 <= i < items@.len() implies (#[trigger] items@[i]).id < id
                    && env.signatures.contains_key(items@[i].id) by {
                    assert(sig_children(env.signatures[id].item)[i] == items@[i]);
                }
                lemma_lenient_grows(env, items@, id, s0);
            }
            let ids = process_items_lenient(items, Ghost(id), program, ir_program, module, type_arg_resolver, errors);
            Some(add_signature(ir_program, IrTypeSignature::Tuple(ids), location_id))
        },
        AstTypeSignature::Function(from, to) => {
            proof {
                assert(sig_children(env.signatures[id].item)[0] == *from);
                assert(sig_children(env.signatures[id].item)[1] == *to);
                lemma_sig_grows(env, *from, s0);
                let a = run_sig(env, *from, s0);
                let f = match a.0 {
                    Some(x) => (x, a.1),
                    None => reserve(a.1),
                };
                lemma_sig_grows(env, *to, f.1);
            }
            let ir_from = match process_type_signature(from, program, ir_program, module, type_arg_resolver, errors) {
                Some(x) => x,
                None => IrTypeSignatureId { id: ir_program.type_signatures.get_id() },
            };
            let ir_to = match process_type_signature(to, program, ir_program, module, type_arg_resolver, errors) {
                Some(x) => x,
                None => IrTypeSignatureId { id: ir_program.type_signatures.get_id() },
            };
            Some(add_signature(ir_program, IrTypeSignature::Function(ir_from, ir_to), location_id))
        },
        AstTypeSignature::Wildcard => Some(add_signature(ir_program, IrTypeSignature::Wildcard, location_id)),
    }
}

/// Resolves the type name `name` applied to `named_args` (see [`run_named`]).
fn process_named_type(
    name: &String,
    named_args: &Vec<TypeSignatureId>,
    location_id: LocationId,
    Ghost(parent): Ghost<usize>,
    program: &Program,
    ir_program: &mut IrProgram,
    module: &Module,
    type_arg_resolver: &mut TypeArgResolver,
    errors: &mut Vec<ResolverError>,
) -> (r: Option<IrTypeSignatureId>)
    requires
        ready(program, old(ir_program), module, old(type_arg_resolver)),
        forall|i: int| 0 <= i < named_args@.len() ==> (#[trigger] named_args@[i]).id < parent
            && program.type_signatures.items@.contains_key(named_args@[i].id),
        run_named(
            sig_env(program, old(ir_program), module, old(type_arg_resolver)),
            *name,
            named_args@,
            location_id,
            parent,
            sig_state(old(ir_program), old(errors)),
        ).1.next <= usize::MAX,
    ensures
        *final(type_arg_resolver) == *old(type_arg_resolver),
        final(ir_program).exprs == old(ir_program).exprs,
        final(ir_program).patterns == old(ir_program).patterns,
        final(ir_program).typedefs == old(ir_program).typedefs,
        run_named(
            sig_env(program, old(ir_program), module, old(type_arg_resolver)),
            *name,
            named_args@,
            location_id,
            parent,
            sig_state(old(ir_program), old(errors)),
        ) == (r, sig_state(final(ir_program), final(errors))),
    decreases parent, 1nat, 0nat,
{
    let ghost env = sig_env(program, ir_program, module, type_arg_resolver);
    let ghost s0 = sig_state(ir_program, errors);
    match find_import(module, name) {
        None => {
            errors.push(ResolverError::UnknownTypeName(name.clone(), location_id));
            None
        },
        Some(i) => {
            let items = &module.imported_items[i].1;
            if items.len() > 1 {
                errors.push(ResolverError::AmbiguousName(name.clone(), location_id));
                return None;
            }
            proof {
                lemma_strict_grows(env, named_args@, parent, s0);
                assert(env.imported[name@].len() >= 1);
            }
            let ids = match process_items_strict(
                named_args,
                Ghost(parent),
                program,
                ir_program,
                module,
                type_arg_resolver,
                errors,
            ) {
                Some(v) => v,
                None => {
                    return None;
                },
            };
            let item = items[0].item;
            match item {
                Item::Adt(_, tid) => add_named(tid, name, ids, location_id, ir_program, errors),
                Item::Record(_, tid) => add_named(tid, name, ids, location_id, ir_program, errors),
                _ => {
                    errors.push(ResolverError::NameNotType(name.clone(), location_id));
                    None
                },
            }
        },
    }
}

/// The signature of the type definition `tid` applied to `ids`, or an
/// error where the numbers of arguments differ (see [`named_sig`]).
fn add_named(
    tid: TypeDefId,
    name: &String,
    ids: Vec<IrTypeSignatureId>,
    location_id: LocationId,
    ir_program: &mut IrProgram,
    errors: &mut Vec<ResolverError>,
) -> (r: Option<IrTypeSignatureId>)
    requires
        old(ir_program).typedefs.items@.contains_key(tid.id),
        named_sig(
            old(ir_program).typedefs.items@[tid.id],
            tid,
            *name,
            ids@,
            location_id,
            sig_state(old(ir_program), old(errors)),
        ).1.next <= usize::MAX,
    ensures
        final(ir_program).exprs == old(ir_program).exprs,
        final(ir_program).patterns == old(ir_program).patterns,
        final(ir_program).typedefs == old(ir_program).typedefs,
        named_sig(
            old(ir_program).typedefs.items@[tid.id],
            tid,
            *name,
            ids@,
            location_id,
            sig_state(old(ir_program), old(errors)),
        ) == (r, sig_state(final(ir_program), final(errors))),
{
    let (def_name, count) = match ir_program.typedefs.get(tid.id) {
        TypeDef::Adt(adt) => (adt.name.clone(), adt.type_args.len()),
        TypeDef::Record(record) => (record.name.clone(), record.type_args.len()),
    };
    if count != ids.len() {
        errors.push(ResolverError::IncorrectTypeArgumentCount(name.clone(), count, ids.len(), location_id));
        None
    } else {
        Some(add_signature(ir_program, IrTypeSignature::Named(def_name, tid, ids), location_id))
    }
}

/// Resolves the signatures one after the other, stopping at the first that
/// fails (see [`run_strict`]).
fn process_items_strict(
    items: &Vec<TypeSignatureId>,
    Ghost(bound): Ghost<usize>,
    program: &Program,
    ir_program: &mut IrProgram,
    module: &Module,
    type_arg_resolver: &mut TypeArgResolver,
    errors: &mut Vec<ResolverError>,
) -> (r: Option<Vec<IrTypeSignatureId>>)
    requires
        ready(program, old(ir_program), module, old(type_arg_resolver)),
        forall|i: int| 0 <= i < items@.len() ==> (#[trigger] items@[i]).id < bound
            && program.type_signatures.items@.contains_key(items@[i].id),
        run_strict(
            sig_env(program, old(ir_program), module, old(type_arg_resolver)),
            items@,
            bound,
            sig_state(old(ir_program), old(errors)),
        ).1.next <= usize::MAX,
    ensures
        *final(type_arg_resolver) == *old(type_arg_resolver),
        final(ir_program).exprs == old(ir_program).exprs,
        final(ir_program).patterns == old(ir_program).patterns,
        final(ir_program).typedefs == old(ir_program).typedefs,
        run_strict(
            sig_env(program, old(ir_program), module, old(type_arg_resolver)),
            items@,
            bound,
            sig_state(old(ir_program), old(errors)),
        ) == (
            match r {
                Some(v) => Some(v@),
                None => None,
            },
            sig_state(final(ir_program), final(errors)),
        ),
    decreases bound, 0nat, 0nat,
{
    let ghost env = sig_env(program, ir_program, module, type_arg_resolver);
    let ghost s0 = sig_state(ir_program, errors);
    let ghost total = run_strict(env, items@, bound, s0);
    let mut ids: Vec<IrTypeSignatureId> = Vec::new();
    let mut i: usize = 0;
    proof {
        assert(items@.subrange(0, 0) =~= Seq::<TypeSignatureId>::empty());
    }
    while i < items.len()
        invariant
            i <= items@.len(),
            env == sig_env(program, ir_program, module, type_arg_resolver),
            env == sig_env(program, old(ir_program), module, old(type_arg_resolver)),
            s0 == sig_state(old(ir_program), old(errors)),
            ready(program, ir_program, module, type_arg_resolver),
            total == run_strict(env, items@, bound, s0),
            total.1.next <= usize::MAX,
            forall|j: int| 0 <= j < items@.len() ==> (#[trigger] items@[j]).id < bound
                && program.type_signatures.items@.contains_key(items@[j].id),
            run_strict(env, items@.subrange(0, i as int), bound, s0) == (
                Some(ids@),
                sig_state(ir_program, errors),
            ),
            *type_arg_resolver == *old(type_arg_resolver),
            ir_program.exprs == old(ir_program).exprs,
            ir_program.patterns == old(ir_program).patterns,
            ir_program.typedefs == old(ir_program).typedefs,
        decreases items@.len() - i,
    {
        proof {
            lemma_strict_prefix(env, items@, i + 1, bound, s0);
            let sub = items@.subrange(0, i + 1);
            assert(sub.drop_last() =~= items@.subrange(0, i as int));
            assert(sub.last() == items@[i as int]);
        }
        match process_type_signature(&items[i], program, ir_program, module, type_arg_resolver, errors) {
            Some(id) => {
                ids.push(id);
            },
            None => {
                proof {
                    let sub = items@.subrange(0, i + 1);
                    assert(sub.drop_last() =~= items@.subrange(0, i as int));
                    assert(sub.last() == items@[i as int]);
                    assert(run_strict(env, sub, bound, s0) == (
                        None::<Seq<IrTypeSignatureId>>,
                        sig_state(ir_program, errors),
                    ));
                }
                return None;
            },
        }
        i += 1;
    }
    proof {
        assert(items@.subrange(0, i as int) =~= items@);
    }
    Some(ids)
}

/// Resolves the signatures one after the other, keeping the identifiers of
/// those that do not fail (see [`run_lenient`]).
fn process_items_lenient(
    items: &Vec<TypeSignatureId>,
    Ghost(bound): Ghost<usize>,
    program: &Program,
    ir_program: &mut IrProgram,
    module: &Module,
    type_arg_resolver: &mut TypeArgResolver,
    errors: &mut Vec<ResolverError>,
) -> (r: Vec<IrTypeSignatureId>)
    requires
        ready(program, old(ir_program), module, old(type_arg_resolver)),
        forall|i: int| 0 <= i < items@.len() ==> (#[trigger] items@[i]).id < bound
            && program.type_signatures.items@.contains_key(items@[i].id),
        run_lenient(
            sig_env(program, old(ir_program), module, old(type_arg_resolver)),
            items@,
            bound,
            sig_state(old(ir_program), old(errors)),
        ).1.next <= usize::MAX,
    ensures
        *final(type_arg_resolver) == *old(type_arg_resolver),
        final(ir_program).exprs == old(ir_program).exprs,
        final(ir_program).patterns == old(ir_program).patterns,
        final(ir_program).typedefs == old(ir_program).typedefs,
        run_lenient(
            sig_env(program, old(ir_program), module, old(type_arg_resolver)),
            items@,
            bound,
            sig_state(old(ir_program), old(errors)),
        ) == (r@, sig_state(final(ir_program), final(errors))),
    decreases bound, 0nat, 0nat,
{
    let ghost env = sig_env(program, ir_program, module, type_arg_resolver);
    let ghost s0 = sig_state(ir_program, errors);
    let ghost total = run_lenient(env, items@, bound, s0);
    let mut ids: Vec<IrTypeSignatureId> = Vec::new();
    let mut i: usize = 0;
    proof {
        assert(items@.subrange(0, 0) =~= Seq::<TypeSignatureId>::empty());
    }
    while i < items.len()
        invariant
            i <= items@.len(),
            env == sig_env(program, ir_program, module, type_arg_resolver),
            env == sig_env(program, old(ir_program), module, old(type_arg_resolver)),
            s0 == sig_state(old(ir_program), old(errors)),
            ready(program, ir_program, module, type_arg_resolver),
            total == run_lenient(env, items@, bound, s0),
            total.1.next <= usize::MAX,
            forall|j: int| 0 <= j < items@.len() ==> (#[trigger] items@[j]).id < bound
                && program.type_signatures.items@.contains_key(items@[j].id),
            run_lenient(env, items@.subrange(0, i as int), bound, s0) == (ids@, sig_state(ir_program, errors)),
            *type_arg_resolver == *old(type_arg_resolver),
            ir_program.exprs == old(ir_program).exprs,
            ir_program.patterns == old(ir_program).patterns,
            ir_program.typedefs == old(ir_program).typedefs,
        decreases items@.len() - i,
    {
        proof {
            lemma_lenient_prefix(env, items@, i + 1, bound, s0);
            let sub = items@.subrange(0, i + 1);
            assert(sub.drop_last() =~= items@.subrange(0, i as int));
            assert(sub.last() == items@[i as int]);
        }
        match process_type_signature(&items[i], program, ir_program, module, type_arg_resolver, errors) {
            Some(id) => {
                ids.push(id);
            },
            None => {},
        }
        i += 1;
    }
    proof {
        assert(items@.subrange(0, i as int) =~= items@);
    }
    ids
}

/// A signature that cannot be resolved is always reported: resolving one
/// never drops an error, and where it fails it adds at least one.
pub proof fn lemma_failure_reported(env: SigEnv, id: TypeSignatureId, s: SigState)
    requires
        sigs_well_founded(env),
        env.signatures.contains_key(id.id),
    ensures
        run_sig(env, id, s).1.errors.len() >= s.errors.len(),
        run_sig(env, id, s).0 is None ==> run_sig(env, id, s).1.errors.len() > s.errors.len(),
    decreases id.id, 2nat, 0nat,
{
    let item = env.signatures[id.id].item;
    match item {
        AstTypeSignature::Variant(_, items) => {
            assert forall|i: int| 0 <= i < items@.len() implies (#[trigger] items@[i]).id < id.id
                && env.signatures.contains_key(items@[i].id) by {
                assert(sig_children(env.signatures[id.id].item)[i] == items@[i]);
            }
            lemma_strict_reported(env, items@, id.id, s);
        },
        AstTypeSignature::Named(name, args) => {
            assert forall|i: int| 0 <= i < args@.len() implies (#[trigger] args@[i]).id < id.id
                && env.signatures.contains_key(args@[i].id) by {
                assert(sig_children(env.signatures[id.id].item)[i] == args@[i]);
            }
            lemma_named_reported(env, name, args@, env.signatures[id.id].location_id, id.id, s);
        },
        AstTypeSignature::Tuple(items) => {
            assert forall|i: int| 0 <= i < items@.len() implies (#[trigger] items@[i]).id < id.id
                && env.signatures.contains_key(items@[i].id) by {
                assert(sig_children(env.signatures[id.id].item)[i] == items@[i]);
            }
            lemma_lenient_reported(env, items@, id.id, s);
        },
        AstTypeSignature::Function(from, to) => {
            assert(sig_children(env.signatures[id.id].item)[0] == from);
            assert(sig_children(env.signatures[id.id].item)[1] == to);
            lemma_failure_reported(env, from, s);
            let a = run_sig(env, from, s);
            let f = match a.0 {
                Some(x) => (x, a.1),
                None => reserve(a.1),
            };
            lemma_failure_reported(env, to, f.1);
        },
        _ => {},
    }
}

/// Resolving signatures one after the other never drops an error, and where
/// one fails an error is added.
proof fn lemma_strict_reported(env: SigEnv, items: Seq<TypeSignatureId>, bound: usize, s: SigState)
    requires
        sigs_well_founded(env),
        forall|i: int| 0 <= i < items.len() ==> (#[trigger] items[i]).id < bound
            && env.signatures.contains_key(items[i].id),
    ensures
        run_strict(env, items, bound, s).1.errors.len() >= s.errors.len(),
        run_strict(env, items, bound, s).0 is None ==> run_strict(env, items, bound, s).1.errors.len()
            > s.errors.len(),
    decreases bound, 0nat, items.len(),
{
    if items.len() > 0 {
        let dl = items.drop_last();
        assert forall|i: int| 0 <= i < dl.len() implies (#[trigger] dl[i]).id < bound
            && env.signatures.contains_key(dl[i].id) by {
            assert(dl[i] == items[i]);
        }
        assert(items[items.len() - 1] == items.last());
        lemma_strict_reported(env, dl, bound, s);
        let r = run_strict(env, dl, bound, s);
        if r.0 is Some {
            lemma_failure_reported(env, items.last(), r.1);
        }
    }
}

/// Resolving signatures one after the other, keeping those that resolve,
/// never drops an error.
proof fn lemma_lenient_reported(env: SigEnv, items: Seq<TypeSignatureId>, bound: usize, s: SigState)
    requires
        sigs_well_founded(env),
        forall|i: int| 0 <= i < items.len() ==> (#[trigger] items[i]).id < bound
            && env.signatures.contains_key(items[i].id),
    ensures
        run_lenient(env, items, bound, s).1.errors.len() >= s.errors.len(),
    decreases bound, 0nat, items.len(),
{
    if items.len() > 0 {
        let dl = items.drop_last();
        assert forall|i: int| 0 <= i < dl.len() implies (#[trigger] dl[i]).id < bound
            && env.signatures.contains_key(dl[i].id) by {
            assert(dl[i] == items[i]);
        }
        assert(items[items.len() - 1] == items.last());
        lemma_lenient_reported(env, dl, bound, s);
        let r = run_lenient(env, dl, bound, s);
        lemma_failure_reported(env, items.last(), r.1);
    }
}

/// Resolving a type name never drops an error, and where it fails an error
/// is added.
proof fn lemma_named_reported(
    env: SigEnv,
    name: String,
    args: Seq<TypeSignatureId>,
    loc: LocationId,
    parent: usize,
    s: SigState,
)
    requires
        sigs_well_founded(env),
        forall|i: int| 0 <= i < args.len() ==> (#[trigger] args[i]).id < parent
            && env.signatures.contains_key(args[i].id),
    ensures
        run_named(env, name, args, loc, parent, s).1.errors.len() >= s.errors.len(),
        run_named(env, name, args, loc, parent, s).0 is None ==> run_named(env, name, args, loc, parent, s).1.errors.len()
            > s.errors.len(),
    decreases parent, 1nat, 0nat,
{
    if env.imported.contains_key(name@) && env.imported[name@].len() <= 1 {
        lemma_strict_reported(env, args, parent, s);
    }
}

/// Whether the resolved signature `m` is of the kind that the written
/// signature `w` asks for: nothing, a type argument of the same name, a
/// variant of the same name, the built-in `Int`, `Bool` and `String` for
/// those names, another name as a named type definition, a tuple, a
/// function or a wildcard.
pub open spec fn same_kind(w: AstTypeSignature, m: SigModel) -> bool {
    match w {
        AstTypeSignature::Nothing => m is Nothing,
        AstTypeSignature::TypeArg(n) => m matches SigModel::TypeArgument(_, mn, _) && mn == n@,
        AstTypeSignature::Variant(n, _) => m matches SigModel::Variant(mn, _) && mn == n@,
        AstTypeSignature::Named(n, _) => if n@ == "Int"@ {
            m is Int
        } else if n@ == "Bool"@ {
            m is Bool
        } else if n@ == "String"@ {
            m is String
        } else {
            m is Named
        },
        AstTypeSignature::Tuple(_) => m is Tuple,
        AstTypeSignature::Function(_, _) => m is Function,
        AstTypeSignature::Wildcard => m is Wildcard,
    }
}

/// A signature that resolves is filed under the identifier handed back, the
/// last one taken, at the location it was written, and its resolved form is
/// of the kind it was written as; a type argument resolves to the position
/// and constraints it was declared with, and a named type to the definition
/// the name stands for with as many arguments as the definition takes.
pub proof fn lemma_resolved_filed(env: SigEnv, id: TypeSignatureId, s: SigState)
    requires
        env.signatures.contains_key(id.id),
        run_sig(env, id, s).1.next <= usize::MAX,
    ensures
        ({
            let r = run_sig(env, id, s);
            let w = env.signatures[id.id];
            r.0 matches Some(x) ==> {
                &&& x.id + 1 == r.1.next
                &&& r.1.sigs.contains_key(x.id)
                &&& r.1.sigs[x.id].1 == w.location_id
                &&& same_kind(w.item, r.1.sigs[x.id].0)
                &&& (w.item matches AstTypeSignature::TypeArg(n) ==> env.type_args.contains_key(n@)
                    && r.1.sigs[x.id].0 == SigModel::TypeArgument(env.type_args[n@].0, n@, env.type_args[n@].1))
                &&& (r.1.sigs[x.id].0 matches SigModel::Named(tn, t, ids) ==> env.typedefs[t.id].name()@ == tn
                    && env.typedefs[t.id].arg_count() == ids.len())
            }
        }),
{
    let w = env.signatures[id.id].item;
    let loc = env.signatures[id.id].location_id;
    let r = run_sig(env, id, s);
    match w {
        AstTypeSignature::Named(name, args) => {
            if !(name@ == "Int"@ || name@ == "Bool"@ || name@ == "String"@) {
                assert(r == run_named(env, name, args@, loc, id.id, s));
                if env.imported.contains_key(name@) && env.imported[name@].len() <= 1 {
                    let q = run_strict(env, args@, id.id, s);
                    if let Some(ids) = q.0 {
                        match env.imported[name@][0].item {
                            Item::Adt(_, t) => {
                                let td = env.typedefs[t.id];
                                assert(r == named_sig(td, t, name, ids, loc, q.1));
                            },
                            Item::Record(_, t) => {
                                let td = env.typedefs[t.id];
                                assert(r == named_sig(td, t, name, ids, loc, q.1));
                            },
                            _ => {},
                        }
                    }
                }
            }
        },
        AstTypeSignature::Variant(name, items) => {
            let q = run_strict(env, items@, id.id, s);
            if let Some(ids) = q.0 {
                assert(r == add_sig(q.1, SigModel::Variant(name@, ids), loc));
            }
        },
        AstTypeSignature::Tuple(items) => {
            let q = run_lenient(env, items@, id.id, s);
            assert(r == add_sig(q.1, SigModel::Tuple(q.0), loc));
        },
        _ => {},
    }
}

} // verus!
