use crate::ir::class::ClassId;
use crate::ir::types::class_ids_model;
use crate::ir::types::lemma_any_contains;
use crate::ir::types::Type;
use crate::ir::types_old::ConcreteModel;
use crate::ir::types_old::ConcreteType;
use crate::ir::types::TypeModel;
use crate::ir::data::TypeDefId;
use crate::util::assoc_map;
use crate::util::decimal;
use crate::util::decimal_string;
use crate::util::distinct_keys;
use crate::util::lemma_assoc_contains;
use crate::util::lemma_assoc_index;
use crate::util::lemma_assoc_push;
use crate::util::lemma_assoc_update;
use crate::util::ids_increasing;
use crate::util::lemma_increasing_unique;
use crate::util::lemma_keys_increasing_distinct;
use crate::util::keys_increasing;
use crate::util::lemma_decimal_injective;
use crate::util::Collector;
use crate::util::Counter;
use vstd::prelude::*;

verus! {

/// The texts, with `sep` between each two.
pub open spec fn join(ss: Seq<Seq<char>>, sep: Seq<char>) -> Seq<char>
    decreases ss.len(),
{
    if ss.len() == 0 {
        Seq::empty()
    } else if ss.len() == 1 {
        ss[0]
    } else {
        join(ss.drop_last(), sep) + sep + ss.last()
    }
}

/// The characters of each string.
pub open spec fn string_views(v: Seq<String>) -> Seq<Seq<char>> {
    v.map_values(|s: String| s@)
}

/// The strings, with `sep` between each two.
pub fn join_strings(ss: &Vec<String>, sep: &str) -> (r: String)
    ensures
        r@ == join(string_views(ss@), sep@),
{
    let mut s = String::new();
    let mut i: usize = 0;
    while i < ss.len()
        invariant
            i <= ss@.len(),
            s@ == join(string_views(ss@).subrange(0, i as int), sep@),
        decreases ss@.len() - i,
    {
        let ghost pre = string_views(ss@).subrange(0, i as int);
        let ghost next = string_views(ss@).subrange(0, i + 1);
        assert(next.drop_last() =~= pre);
        if i > 0 {
            s.append(sep);
        } else {
            assert(s@ =~= Seq::<char>::empty());
        }
        s.append(ss[i].as_str());
        i += 1;
    }
    assert(string_views(ss@).subrange(0, i as int) =~= string_views(ss@));
    s
}

/// The text of a class identifier: `#` and its number.
pub open spec fn class_text(id: usize) -> Seq<char> {
    "#"@ + decimal(id as nat)
}

/// The texts of class identifiers.
pub open spec fn class_texts(cs: Seq<usize>) -> Seq<Seq<char>> {
    Seq::new(cs.len(), |i: int| class_text(cs[i]))
}

/// What follows a type variable: nothing where it has no constraint, else a
/// slash and its classes separated by commas.
pub open spec fn constraint_suffix(cs: Seq<usize>) -> Seq<char> {
    if cs.len() == 0 {
        Seq::empty()
    } else {
        "/"@ + join(class_texts(cs), ", "@)
    }
}

impl TypeModel {
    /// The text of a type as its `Display` writes it: tuples in parentheses,
    /// named types with their arguments in parentheses, functions with an
    /// arrow, type variables as `$` and fixed type arguments as `f$` with their
    /// index and constraints.
    pub open spec fn display(self) -> Seq<char>
        decreases self,
    {
        match self {
            TypeModel::Tuple(items) => "("@ + join(TypeModel::displays(items), ", "@) + ")"@,
            TypeModel::Named(name, _, items) => if items.len() == 0 {
                name
            } else {
                name + " ("@ + join(TypeModel::displays(items), " "@) + ")"@
            },
            TypeModel::Function(from, to) => from.display() + " -> "@ + to.display(),
            TypeModel::Var(id, cs) => "$"@ + decimal(id as nat) + constraint_suffix(cs),
            TypeModel::FixedTypeArg(_, id, cs) => "f$"@ + decimal(id as nat) + constraint_suffix(cs),
        }
    }

    /// The texts of each of the types.
    pub open spec fn displays(items: Seq<TypeModel>) -> Seq<Seq<char>>
        decreases items,
    {
        if items.len() == 0 {
            Seq::empty()
        } else {
            TypeModel::displays(items.subrange(0, items.len() - 1)).push(
                items[items.len() - 1].display(),
            )
        }
    }
}

/// The text that follows a type variable with the constraints `cs`.
fn constraint_suffix_string(cs: &Vec<ClassId>) -> (r: String)
    ensures
        r@ == constraint_suffix(class_ids_model(cs@)),
{
    if cs.len() == 0 {
        return String::new();
    }
    let mut texts: Vec<String> = Vec::new();
    let mut i: usize = 0;
    while i < cs.len()
        invariant
            i <= cs@.len(),
            string_views(texts@) == class_texts(class_ids_model(cs@)).subrange(0, i as int),
        decreases cs@.len() - i,
    {
        let t = cs[i].to_string();
        let ghost before = texts@;
        texts.push(t);
        assert(string_views(texts@) =~= class_texts(class_ids_model(cs@)).subrange(0, i + 1)) by {
            assert(string_views(texts@) =~= string_views(before).push(t@));
        }
        i += 1;
    }
    assert(class_texts(class_ids_model(cs@)).subrange(0, i as int) =~= class_texts(class_ids_model(cs@)));
    let mut s = String::from_str("/");
    let joined = join_strings(&texts, ", ");
    s.append(joined.as_str());
    s
}

impl Type {
    /// The text of the type, as its `Display` writes it (see [`TypeModel::display`]).
    pub fn to_string(&self) -> (r: String)
        ensures
            r@ == self.model().display(),
        decreases self,
    {
        match self {
            Type::Tuple(items) => {
                let texts = Self::item_strings(items);
                let mut s = String::from_str("(");
                let joined = join_strings(&texts, ", ");
                s.append(joined.as_str());
                s.append(")");
                s
            },
            Type::Named(name, _, items) => {
                let texts = Self::item_strings(items);
                let mut s = name.clone();
                if items.len() > 0 {
                    s.append(" (");
                    let joined = join_strings(&texts, " ");
                    s.append(joined.as_str());
                    s.append(")");
                }
                s
            },
            Type::Function(from, to) => {
                let mut s = from.to_string();
                s.append(" -> ");
                let t = to.to_string();
                s.append(t.as_str());
                s
            },
            Type::Var(id, cs) => {
                let mut s = String::from_str("$");
                let digits = decimal_string(*id);
                s.append(digits.as_str());
                let suffix = constraint_suffix_string(cs);
                s.append(suffix.as_str());
                s
            },
            Type::FixedTypeArg(_, id, cs) => {
                let mut s = String::from_str("f$");
                let digits = decimal_string(*id);
                s.append(digits.as_str());
                let suffix = constraint_suffix_string(cs);
                s.append(suffix.as_str());
                s
            },
        }
    }

    /// The text of each of the types.
    fn item_strings(items: &Vec<Type>) -> (r: Vec<String>)
        ensures
            string_views(r@) == TypeModel::displays(Self::models(items@)),
        decreases items,
    {
        let ghost ms = Self::models(items@);
        let mut r: Vec<String> = Vec::new();
        let mut i: usize = 0;
        while i < items.len()
            invariant
                i <= items@.len(),
                ms == Self::models(items@),
                string_views(r@) == TypeModel::displays(ms.subrange(0, i as int)),
            decreases items@.len() - i,
        {
            let t = items[i].to_string();
            let ghost before = r@;
            r.push(t);
            proof {
                let next = ms.subrange(0, i + 1);
                assert(next.subrange(0, i as int) =~= ms.subrange(0, i as int));
                assert(next[i as int] == items@[i as int].model());
                assert(string_views(r@) =~= string_views(before).push(t@));
            }
            i += 1;
        }
        assert(ms.subrange(0, i as int) =~= ms);
        r
    }
}

/// The names given to the type variables and the classes while a type is
/// written out for the user.
#[derive(Debug)]
pub struct ResolverContext {
    type_args: Vec<(usize, String)>,
    next_index: Counter,
    list_type_id: TypeDefId,
    class_names: Vec<(ClassId, String)>,
}

/// The pairs of an association list of names, by the characters of the names.
pub open spec fn name_entries(v: Seq<(usize, String)>) -> Seq<(usize, Seq<char>)> {
    Seq::new(v.len(), |i: int| (v[i].0, v[i].1@))
}

/// The pairs of a list of class names, by class number.
pub open spec fn class_entries(v: Seq<(ClassId, String)>) -> Seq<(usize, Seq<char>)> {
    Seq::new(v.len(), |i: int| (v[i].0.id, v[i].1@))
}

/// The pairs of a list of names and classes, turned around: by class number.
pub open spec fn inverted_class_entries(v: Seq<(String, ClassId)>) -> Seq<(usize, Seq<char>)> {
    Seq::new(v.len(), |i: int| (v[i].1.id, v[i].0@))
}

/// The name of a type variable that has none of its own: `t` and a number.
pub open spec fn fresh_arg_name(index: nat) -> Seq<char> {
    "t"@ + decimal(index)
}

impl ResolverContext {
    /// The name of each type variable named so far.
    pub closed spec fn names(&self) -> Map<usize, Seq<char>> {
        assoc_map(name_entries(self.type_args@))
    }

    /// The number that the next unnamed type variable gets.
    pub closed spec fn next_index(&self) -> usize {
        self.next_index.value
    }

    /// The list type of the language, which is written in brackets.
    pub closed spec fn list_id(&self) -> TypeDefId {
        self.list_type_id
    }

    /// The name of each class, by class number.
    pub closed spec fn class_name_map(&self) -> Map<usize, Seq<char>> {
        assoc_map(class_entries(self.class_names@))
    }

    /// No variable and no class is named twice.
    pub closed spec fn wf(&self) -> bool {
        &&& distinct_keys(name_entries(self.type_args@))
        &&& distinct_keys(class_entries(self.class_names@))
    }

    /// A context with no variable named yet; `class_names` are the names of
    /// the classes of the program (a later pair wins over an earlier one with
    /// the same class), and `list_type_id` is the list type.
    pub fn new(class_names: &Vec<(String, ClassId)>, list_type_id: TypeDefId) -> (r: ResolverContext)
        ensures
            r.wf(),
            r.names() == Map::<usize, Seq<char>>::empty(),
            r.next_index() == 0,
            r.list_id() == list_type_id,
            r.class_name_map() == assoc_map(inverted_class_entries(class_names@)),
    {
        let ghost src = inverted_class_entries(class_names@);
        let mut names: Vec<(ClassId, String)> = Vec::new();
        let mut i: usize = 0;
        proof {
            assert(class_entries(names@) =~= Seq::<(usize, Seq<char>)>::empty());
            assert(src.subrange(0, 0) =~= Seq::<(usize, Seq<char>)>::empty());
        }
        while i < class_names.len()
            invariant
                i <= class_names@.len(),
                src == inverted_class_entries(class_names@),
                distinct_keys(class_entries(names@)),
                assoc_map(class_entries(names@)) == assoc_map(src.subrange(0, i as int)),
            decreases class_names@.len() - i,
        {
            let class = class_names[i].1;
            let name = class_names[i].0.clone();
            let ghost entries = class_entries(names@);
            let ghost key = class.id;
            let ghost val = name@;
            proof {
                assert(src.subrange(0, i + 1).drop_last() =~= src.subrange(0, i as int));
                assert(src.subrange(0, i + 1).last() == (key, val));
                lemma_assoc_contains(entries, key);
            }
            let mut j: usize = 0;
            let mut found = false;
            while j < names.len()
                invariant
                    j <= names@.len(),
                    key == class.id,
                    entries == class_entries(names@),
                    forall|k: int| 0 <= k < j ==> (#[trigger] entries[k]).0 != key,
                    found ==> j < names@.len() && entries[j as int].0 == key,
                ensures
                    j <= names@.len(),
                    forall|k: int| 0 <= k < j ==> (#[trigger] entries[k]).0 != key,
                    found ==> j < names@.len() && entries[j as int].0 == key,
                    !found ==> j == names@.len(),
                decreases names@.len() - j,
            {
                if names[j].0.id == class.id {
                    assert(entries[j as int].0 == names@[j as int].0.id);
                    found = true;
                    break;
                }
                assert(entries[j as int].0 == names@[j as int].0.id);
                j += 1;
            }
            if found {
                proof {
                    lemma_assoc_update(entries, j as int, val);
                }
                names.set(j, (class, name));
                assert(class_entries(names@) =~= entries.update(j as int, (entries[j as int].0, val)));
            } else {
                proof {
                    if assoc_map(entries).contains_key(key) {
                        let k = choose|k: int| 0 <= k < entries.len() && (#[trigger] entries[k]).0 == key;
                        assert(entries[k].0 != key);
                    }
                    lemma_assoc_push(entries, key, val);
                }
                names.push((class, name));
                assert(class_entries(names@) =~= entries.push((key, val)));
            }
            i += 1;
        }
        assert(src.subrange(0, i as int) =~= src);
        let r = ResolverContext {
            type_args: Vec::new(),
            next_index: Counter::new(),
            list_type_id: list_type_id,
            class_names: names,
        };
        assert(name_entries(r.type_args@) =~= Seq::<(usize, Seq<char>)>::empty());
        r
    }

    /// Where the type variable `arg` stands in the list of names, if it is there.
    fn find_arg(&self, arg: usize) -> (r: Option<usize>)
        requires
            self.wf(),
        ensures
            match r {
                Some(i) => i < self.type_args@.len() && self.type_args@[i as int].0 == arg
                    && self.names().contains_key(arg) && self.names()[arg]
                    == self.type_args@[i as int].1@,
                None => !self.names().contains_key(arg),
            },
    {
        let ghost entries = name_entries(self.type_args@);
        let mut i: usize = 0;
        while i < self.type_args.len()
            invariant
                i <= self.type_args@.len(),
                entries == name_entries(self.type_args@),
                distinct_keys(entries),
                forall|k: int| 0 <= k < i ==> (#[trigger] entries[k]).0 != arg,
            decreases self.type_args@.len() - i,
        {
            if self.type_args[i].0 == arg {
                proof {
                    lemma_assoc_index(entries, i as int);
                }
                return Some(i);
            }
            i += 1;
        }
        proof {
            lemma_assoc_contains(entries, arg);
            if assoc_map(entries).contains_key(arg) {
                let k = choose|k: int| 0 <= k < entries.len() && (#[trigger] entries[k]).0 == arg;
                assert(entries[k].0 != arg);
            }
        }
        None
    }

    /// Names `arg` with `name`, where it has no name yet.
    fn put_name(&mut self, arg: usize, name: String)
        requires
            old(self).wf(),
            !old(self).names().contains_key(arg),
        ensures
            final(self).wf(),
            final(self).names() == old(self).names().insert(arg, name@),
            final(self).next_index() == old(self).next_index(),
            final(self).list_id() == old(self).list_id(),
            final(self).class_name_map() == old(self).class_name_map(),
    {
        let ghost entries = name_entries(self.type_args@);
        let ghost val = name@;
        proof {
            lemma_assoc_push(entries, arg, val);
        }
        self.type_args.push((arg, name));
        assert(name_entries(self.type_args@) =~= entries.push((arg, val)));
    }

    /// Gives the type variable `arg` the next fresh name, where it has no name yet.
    pub fn add_type_arg(&mut self, arg: usize)
        requires
            old(self).wf(),
            old(self).next_index() < usize::MAX,
        ensures
            final(self).wf(),
            final(self).list_id() == old(self).list_id(),
            final(self).class_name_map() == old(self).class_name_map(),
            old(self).names().contains_key(arg) ==> {
                &&& final(self).names() == old(self).names()
                &&& final(self).next_index() == old(self).next_index()
            },
            !old(self).names().contains_key(arg) ==> {
                &&& final(self).names() == old(self).names().insert(
                    arg,
                    fresh_arg_name(old(self).next_index() as nat),
                )
                &&& final(self).next_index() == old(self).next_index() + 1
            },
    {
        if self.find_arg(arg).is_none() {
            let index = self.next_index.next();
            let mut name = String::from_str("t");
            let digits = decimal_string(index);
            name.append(digits.as_str());
            self.put_name(arg, name);
        }
    }

    /// Gives the type variable `arg` the name `name`, where it has no name yet.
    pub fn add_named_type_arg(&mut self, arg: usize, name: String)
        requires
            old(self).wf(),
        ensures
            final(self).wf(),
            final(self).next_index() == old(self).next_index(),
            final(self).list_id() == old(self).list_id(),
            final(self).class_name_map() == old(self).class_name_map(),
            final(self).names() == (if old(self).names().contains_key(arg) {
                old(self).names()
            } else {
                old(self).names().insert(arg, name@)
            }),
    {
        if self.find_arg(arg).is_none() {
            self.put_name(arg, name);
        }
    }

    /// The name of the type variable `arg`, which must have one.
    pub fn get_type_arg_name(&self, arg: usize) -> (r: String)
        requires
            self.wf(),
            self.names().contains_key(arg),
        ensures
            r@ == self.names()[arg],
    {
        match self.find_arg(arg) {
            Some(i) => self.type_args[i].1.clone(),
            None => {
                assert(false);
                String::new()
            },
        }
    }

    /// The list type of the language.
    pub fn get_list_type_id(&self) -> (r: TypeDefId)
        ensures
            r == self.list_id(),
    {
        self.list_type_id
    }

    /// The name of the class `class_id`, which must have one.
    pub fn get_class_name(&self, class_id: &ClassId) -> (r: &String)
        requires
            self.wf(),
            self.class_name_map().contains_key(class_id.id),
        ensures
            r@ == self.class_name_map()[class_id.id],
    {
        let ghost entries = class_entries(self.class_names@);
        proof {
            lemma_assoc_contains(entries, class_id.id);
        }
        let mut i: usize = 0;
        while i < self.class_names.len()
            invariant
                i <= self.class_names@.len(),
                entries == class_entries(self.class_names@),
                distinct_keys(entries),
                assoc_map(entries).contains_key(class_id.id),
                forall|k: int| 0 <= k < i ==> (#[trigger] entries[k]).0 != class_id.id,
            decreases self.class_names@.len() - i,
        {
            if self.class_names[i].0.id == class_id.id {
                proof {
                    lemma_assoc_index(entries, i as int);
                }
                return &self.class_names[i].1;
            }
            i += 1;
        }
        proof {
            let k = choose|k: int| 0 <= k < entries.len() && (#[trigger] entries[k]).0 == class_id.id;
            assert(entries[k].0 != class_id.id);
        }
        &self.class_names[0].1
    }
}

impl TypeModel {
    /// The text of a type as it is shown to the user, where `names` names the
    /// type variables and `list_id` is the list type: tuples in parentheses,
    /// lists in brackets, a named type followed by its arguments, functions
    /// with an arrow; a function, or a named type with arguments, is put in
    /// parentheses where `need_parens` asks for it, as it does for the parts
    /// of a function and the arguments of a named type.
    pub open spec fn resolved(self, need_parens: bool, names: Map<usize, Seq<char>>, list_id: usize) -> Seq<char>
        decreases self,
    {
        match self {
            TypeModel::Tuple(items) => "("@ + join(TypeModel::resolved_seq(items, false, names, list_id), ", "@) + ")"@,
            TypeModel::Function(from, to) => {
                let s = from.resolved(true, names, list_id) + " -> "@ + to.resolved(true, names, list_id);
                if need_parens {
                    "("@ + s + ")"@
                } else {
                    s
                }
            },
            TypeModel::Var(index, _) => names[index],
            TypeModel::FixedTypeArg(name, _, _) => name,
            TypeModel::Named(name, id, items) => {
                let ss = TypeModel::resolved_seq(items, true, names, list_id);
                if id == list_id {
                    "["@ + ss[0] + "]"@
                } else if ss.len() == 0 {
                    name
                } else if need_parens {
                    "("@ + name + " "@ + join(ss, " "@) + ")"@
                } else {
                    name + " "@ + join(ss, " "@)
                }
            },
        }
    }

    /// The texts of each of the types.
    pub open spec fn resolved_seq(items: Seq<TypeModel>, need_parens: bool, names: Map<usize, Seq<char>>, list_id: usize) -> Seq<Seq<char>>
        decreases items,
    {
        if items.len() == 0 {
            Seq::empty()
        } else {
            TypeModel::resolved_seq(items.subrange(0, items.len() - 1), need_parens, names, list_id).push(
                items[items.len() - 1].resolved(need_parens, names, list_id),
            )
        }
    }

    /// Whether each list type in the type has exactly one argument.
    pub open spec fn lists_ok(self, list_id: usize) -> bool
        decreases self,
    {
        match self {
            TypeModel::Tuple(items) => TypeModel::lists_ok_seq(items, list_id),
            TypeModel::Function(from, to) => from.lists_ok(list_id) && to.lists_ok(list_id),
            TypeModel::Var(..) => true,
            TypeModel::FixedTypeArg(..) => true,
            TypeModel::Named(_, id, items) => TypeModel::lists_ok_seq(items, list_id) && (id == list_id
                ==> items.len() == 1),
        }
    }

    /// Whether each list type in each of the types has exactly one argument.
    pub open spec fn lists_ok_seq(items: Seq<TypeModel>, list_id: usize) -> bool
        decreases items,
    {
        if items.len() == 0 {
            true
        } else {
            TypeModel::lists_ok_seq(items.subrange(0, items.len() - 1), list_id) && items[items.len()
                - 1].lists_ok(list_id)
        }
    }

    /// Whether the type can be shown: each list type in it has exactly one
    /// argument, and each of its type variables has a name.
    pub open spec fn printable(self, names: Map<usize, Seq<char>>, list_id: usize) -> bool {
        &&& self.lists_ok(list_id)
        &&& forall|k: usize| #[trigger] self.contains(k) ==> names.contains_key(k)
    }
}

/// Each of a sequence of types whose lists are well formed has well formed lists.
pub proof fn lemma_lists_ok_seq(items: Seq<TypeModel>, list_id: usize, i: int)
    requires
        TypeModel::lists_ok_seq(items, list_id),
        0 <= i < items.len(),
    ensures
        items[i].lists_ok(list_id),
    decreases items.len(),
{
    if i < items.len() - 1 {
        let pre = items.subrange(0, items.len() - 1);
        lemma_lists_ok_seq(pre, list_id, i);
        assert(pre[i] == items[i]);
    }
}

/// Each of the types of a printable tuple or named type is printable.
pub proof fn lemma_printable_item(items: Seq<TypeModel>, names: Map<usize, Seq<char>>, list_id: usize, i: int)
    requires
        TypeModel::lists_ok_seq(items, list_id),
        forall|k: usize| #[trigger] TypeModel::contains_flags(items, k).contains(true) ==> names.contains_key(k),
        0 <= i < items.len(),
    ensures
        items[i].printable(names, list_id),
{
    lemma_lists_ok_seq(items, list_id, i);
    assert forall|k: usize| #[trigger] items[i].contains(k) implies names.contains_key(k) by {
        lemma_any_contains(items, k);
    }
}

/// A sequence of texts has as many texts as there are types.
pub proof fn lemma_resolved_seq_len(items: Seq<TypeModel>, need_parens: bool, names: Map<usize, Seq<char>>, list_id: usize)
    ensures
        TypeModel::resolved_seq(items, need_parens, names, list_id).len() == items.len(),
    decreases items.len(),
{
    if items.len() > 0 {
        lemma_resolved_seq_len(items.subrange(0, items.len() - 1), need_parens, names, list_id);
    }
}

/// Each text of a sequence of types is the text of the type at its place.
pub proof fn lemma_resolved_seq_index(
    items: Seq<TypeModel>,
    need_parens: bool,
    names: Map<usize, Seq<char>>,
    list_id: usize,
)
    ensures
        TypeModel::resolved_seq(items, need_parens, names, list_id) =~= Seq::new(
            items.len(),
            |k: int| items[k].resolved(need_parens, names, list_id),
        ),
    decreases items.len(),
{
    if items.len() > 0 {
        let pre = items.subrange(0, items.len() - 1);
        lemma_resolved_seq_index(pre, need_parens, names, list_id);
        assert forall|k: int| 0 <= k < pre.len() implies pre[k] == items[k] by {}
    }
}

/// Whether a type is shown in parentheses where it stands as a part of
/// another: a function, or a named type other than a list that has
/// arguments.
pub open spec fn parenthesized(t: TypeModel, list_id: usize) -> bool {
    ||| t is Function
    ||| (t matches TypeModel::Named(_, id, items) && id != list_id && items.len() > 0)
}

/// The text of a type standing as a part of another type: in parentheses
/// where it would not read as one piece.
pub open spec fn shown_part(t: TypeModel, names: Map<usize, Seq<char>>, list_id: usize) -> Seq<char> {
    if parenthesized(t, list_id) {
        "("@ + t.resolved(false, names, list_id) + ")"@
    } else {
        t.resolved(false, names, list_id)
    }
}

/// Asking for parentheses puts a function or a named type with arguments in
/// them and leaves every other type as it is.
pub proof fn lemma_parens(t: TypeModel, names: Map<usize, Seq<char>>, list_id: usize)
    ensures
        t.resolved(true, names, list_id) == shown_part(t, names, list_id),
{
    if let TypeModel::Named(_, _, items) = t {
        lemma_resolved_seq_len(items, true, names, list_id);
    }
}

/// How a named type (not a list) with arguments is shown: its name followed
/// by each argument, an argument that is a function or a named type with
/// arguments in parentheses; so `Maybe (Maybe Int)` keeps its inner
/// parentheses.
pub proof fn lemma_named_shown(
    name: Seq<char>,
    id: usize,
    items: Seq<TypeModel>,
    names: Map<usize, Seq<char>>,
    list_id: usize,
)
    requires
        id != list_id,
        items.len() > 0,
    ensures
        TypeModel::Named(name, id, items).resolved(false, names, list_id) == name + " "@ + join(
            Seq::new(items.len(), |k: int| shown_part(items[k], names, list_id)),
            " "@,
        ),
{
    lemma_resolved_seq_index(items, true, names, list_id);
    assert forall|k: int| 0 <= k < items.len() implies items[k].resolved(true, names, list_id) == shown_part(
        items[k],
        names,
        list_id,
    ) by {
        lemma_parens(items[k], names, list_id);
    }
    assert(TypeModel::resolved_seq(items, true, names, list_id) =~= Seq::new(
        items.len(),
        |k: int| shown_part(items[k], names, list_id),
    ));
}

/// How a function type is shown: its argument, an arrow and its result, each
/// in parentheses where it is a function or a named type with arguments; so
/// a function taking a function reads `(a -> b) -> c`.
pub proof fn lemma_function_shown(from: TypeModel, to: TypeModel, names: Map<usize, Seq<char>>, list_id: usize)
    ensures
        TypeModel::Function(Box::new(from), Box::new(to)).resolved(false, names, list_id) == shown_part(
            from,
            names,
            list_id,
        ) + " -> "@ + shown_part(to, names, list_id),
{
    lemma_parens(from, names, list_id);
    lemma_parens(to, names, list_id);
}

/// A list type is shown as its element type in square brackets, the element
/// in parentheses where it is a function or a named type with arguments; a
/// type variable is shown by the name it was given, and a fixed type
/// argument by its own name.
pub proof fn lemma_list_and_variables_shown(t: TypeModel, names: Map<usize, Seq<char>>, list_id: usize, np: bool)
    ensures
        t matches TypeModel::Named(_, id, items) ==> (id == list_id && items.len() == 1 ==> t.resolved(np, names, list_id)
            == "["@ + shown_part(items[0], names, list_id) + "]"@),
        t matches TypeModel::Var(i, _) ==> t.resolved(np, names, list_id) == names[i],
        t matches TypeModel::FixedTypeArg(n, _, _) ==> t.resolved(np, names, list_id) == n,
{
    if let TypeModel::Named(_, id, items) = t {
        if id == list_id && items.len() == 1 {
            lemma_resolved_seq_index(items, true, names, list_id);
            lemma_parens(items[0], names, list_id);
        }
    }
}

/// The constraints of the type variables are written before the type as
/// `(Class var, ...) => `, one `Class var` for each class of each variable,
/// and nothing is written where there are none.
pub proof fn lemma_constraint_prefix(texts: Seq<Seq<char>>, e: Seq<(usize, Seq<ClassId>)>, names: Map<usize, Seq<char>>, classes: Map<usize, Seq<char>>)
    ensures
        texts.len() == 0 ==> constraint_prefix(texts) == Seq::<char>::empty(),
        texts.len() > 0 ==> constraint_prefix(texts) == "("@ + join(texts, ", "@) + ") => "@,
        e.len() > 0 ==> constraint_texts(e, names, classes) == constraint_texts(e.drop_last(), names, classes) + Seq::new(
            e.last().1.len(),
            |i: int| classes[e.last().1[i].id] + " "@ + names[e.last().0],
        ),
        e.len() == 0 ==> constraint_texts(e, names, classes) == Seq::<Seq<char>>::empty(),
{
}

/// How a tuple is shown: its items in parentheses, separated by commas, none
/// of them in parentheses of its own.
pub proof fn lemma_tuple_shown(items: Seq<TypeModel>, names: Map<usize, Seq<char>>, list_id: usize)
    ensures
        TypeModel::Tuple(items).resolved(false, names, list_id) == "("@ + join(
            Seq::new(items.len(), |k: int| items[k].resolved(false, names, list_id)),
            ", "@,
        ) + ")"@,
{
    lemma_resolved_seq_index(items, false, names, list_id);
}

impl Type {
    /// The text of the type as it is shown to the user (see [`TypeModel::resolved`]).
    fn as_string(&self, need_parens: bool, resolver_context: &ResolverContext) -> (r: String)
        requires
            resolver_context.wf(),
            self.model().printable(resolver_context.names(), resolver_context.list_id().id),
        ensures
            r@ == self.model().resolved(
                need_parens,
                resolver_context.names(),
                resolver_context.list_id().id,
            ),
        decreases self,
    {
        let ghost names = resolver_context.names();
        let ghost list_id = resolver_context.list_id().id;
        match self {
            Type::Tuple(items) => {
                proof {
                    assert forall|k: usize| #[trigger] TypeModel::contains_flags(Self::models(items@), k).contains(true)
                        implies names.contains_key(k) by {
                        assert(self.model().contains(k));
                    }
                }
                let ss = Self::item_resolved_strings(items, false, resolver_context);
                let mut s = String::from_str("(");
                let joined = join_strings(&ss, ", ");
                s.append(joined.as_str());
                s.append(")");
                s
            },
            Type::Function(from, to) => {
                proof {
                    assert forall|k: usize| #[trigger] from.model().contains(k) implies names.contains_key(k) by {
                        assert(self.model().contains(k));
                    }
                    assert forall|k: usize| #[trigger] to.model().contains(k) implies names.contains_key(k) by {
                        assert(self.model().contains(k));
                    }
                }
                let from_str = from.as_string(true, resolver_context);
                let to_str = to.as_string(true, resolver_context);
                let mut func_type_str = from_str;
                func_type_str.append(" -> ");
                func_type_str.append(to_str.as_str());
                if need_parens {
                    let mut s = String::from_str("(");
                    s.append(func_type_str.as_str());
                    s.append(")");
                    s
                } else {
                    func_type_str
                }
            },
            Type::Var(index, _) => {
                assert(self.model().contains(*index));
                resolver_context.get_type_arg_name(*index)
            },
            Type::FixedTypeArg(name, _, _) => name.clone(),
            Type::Named(name, id, items) => {
                proof {
                    assert forall|k: usize| #[trigger] TypeModel::contains_flags(Self::models(items@), k).contains(true)
                        implies names.contains_key(k) by {
                        assert(self.model().contains(k));
                    }
                }
                let ss = Self::item_resolved_strings(items, true, resolver_context);
                proof {
                    lemma_resolved_seq_len(Self::models(items@), true, names, list_id);
                }
                if id.id == resolver_context.get_list_type_id().id {
                    let mut s = String::from_str("[");
                    s.append(ss[0].as_str());
                    s.append("]");
                    s
                } else if ss.len() == 0 {
                    name.clone()
                } else {
                    let joined = join_strings(&ss, " ");
                    if need_parens {
                        let mut s = String::from_str("(");
                        s.append(name.as_str());
                        s.append(" ");
                        s.append(joined.as_str());
                        s.append(")");
                        s
                    } else {
                        let mut s = name.clone();
                        s.append(" ");
                        s.append(joined.as_str());
                        s
                    }
                }
            },
        }
    }

    /// The shown text of each of the types.
    fn item_resolved_strings(items: &Vec<Type>, need_parens: bool, resolver_context: &ResolverContext) -> (r: Vec<String>)
        requires
            resolver_context.wf(),
            TypeModel::lists_ok_seq(Self::models(items@), resolver_context.list_id().id),
            forall|k: usize| #[trigger] TypeModel::contains_flags(Self::models(items@), k).contains(true)
                ==> resolver_context.names().contains_key(k),
        ensures
            string_views(r@) == TypeModel::resolved_seq(
                Self::models(items@),
                need_parens,
                resolver_context.names(),
                resolver_context.list_id().id,
            ),
        decreases items,
    {
        let ghost ms = Self::models(items@);
        let ghost names = resolver_context.names();
        let ghost list_id = resolver_context.list_id().id;
        let mut r: Vec<String> = Vec::new();
        let mut i: usize = 0;
        while i < items.len()
            invariant
                i <= items@.len(),
                ms == Self::models(items@),
                names == resolver_context.names(),
                list_id == resolver_context.list_id().id,
                resolver_context.wf(),
                TypeModel::lists_ok_seq(ms, list_id),
                forall|k: usize| #[trigger] TypeModel::contains_flags(ms, k).contains(true) ==> names.contains_key(k),
                string_views(r@) == TypeModel::resolved_seq(ms.subrange(0, i as int), need_parens, names, list_id),
            decreases items@.len() - i,
        {
            proof {
                lemma_printable_item(ms, names, list_id, i as int);
                assert(ms[i as int] == items@[i as int].model());
            }
            let t = items[i].as_string(need_parens, resolver_context);
            let ghost before = r@;
            r.push(t);
            proof {
                let next = ms.subrange(0, i + 1);
                assert(next.subrange(0, i as int) =~= ms.subrange(0, i as int));
                assert(next[i as int] == items@[i as int].model());
                assert(string_views(r@) =~= string_views(before).push(t@));
            }
            i += 1;
        }
        assert(ms.subrange(0, i as int) =~= ms);
        r
    }
}

impl TypeModel {
    /// Whether the class numbered `c` constrains the type variable `k`
    /// somewhere in the type.
    pub open spec fn has_constraint(self, k: usize, c: usize) -> bool
        decreases self,
    {
        match self {
            TypeModel::Tuple(items) => TypeModel::constraint_flags(items, k, c).contains(true),
            TypeModel::Named(_, _, items) => TypeModel::constraint_flags(items, k, c).contains(true),
            TypeModel::Function(from, to) => from.has_constraint(k, c) || to.has_constraint(k, c),
            TypeModel::Var(i, cs) => i == k && cs.contains(c),
            TypeModel::FixedTypeArg(_, i, cs) => i == k && cs.contains(c),
        }
    }

    /// For each of the types, whether the class `c` constrains `k` in it.
    pub open spec fn constraint_flags(items: Seq<TypeModel>, k: usize, c: usize) -> Seq<bool>
        decreases items,
    {
        Seq::new(items.len(), |j: int| 0 <= j < items.len() && items[j].has_constraint(k, c))
    }

    /// `names` with each fixed type argument of the type named by its own
    /// name, where its index has no name yet, from left to right.
    pub open spec fn fixed_names(self, names: Map<usize, Seq<char>>) -> Map<usize, Seq<char>>
        decreases self,
    {
        match self {
            TypeModel::Tuple(items) => TypeModel::fixed_names_seq(items, names),
            TypeModel::Named(_, _, items) => TypeModel::fixed_names_seq(items, names),
            TypeModel::Function(from, to) => to.fixed_names(from.fixed_names(names)),
            TypeModel::Var(..) => names,
            TypeModel::FixedTypeArg(name, i, _) => if names.contains_key(i) {
                names
            } else {
                names.insert(i, name)
            },
        }
    }

    /// `names` with the fixed type arguments of each of the types, from left to right.
    pub open spec fn fixed_names_seq(items: Seq<TypeModel>, names: Map<usize, Seq<char>>) -> Map<usize, Seq<char>>
        decreases items,
    {
        if items.len() == 0 {
            names
        } else {
            items[items.len() - 1].fixed_names(
                TypeModel::fixed_names_seq(items.subrange(0, items.len() - 1), names),
            )
        }
    }
}

/// A class constrains a variable in a sequence of types exactly when it does
/// in one of them.
pub proof fn lemma_any_constraint(items: Seq<TypeModel>, k: usize, c: usize)
    ensures
        TypeModel::constraint_flags(items, k, c).contains(true) <==> exists|j: int|
            0 <= j < items.len() && #[trigger] items[j].has_constraint(k, c),
{
    let flags = TypeModel::constraint_flags(items, k, c);
    if exists|j: int| 0 <= j < items.len() && #[trigger] items[j].has_constraint(k, c) {
        let j = choose|j: int| 0 <= j < items.len() && #[trigger] items[j].has_constraint(k, c);
        assert(flags[j]);
        assert(flags.contains(true));
    } else {
        assert forall|j: int| 0 <= j < flags.len() implies flags[j] == false by {
            assert(!items[j].has_constraint(k, c));
        }
        assert(!flags.contains(true));
    }
}

/// The classes a collector holds for each key after the type variables of a
/// type, with their constraints, were added to what it held before.
pub open spec fn collected_from(new: Map<usize, Seq<ClassId>>, prev: Map<usize, Seq<ClassId>>, t: TypeModel) -> bool {
    &&& forall|k: usize| #[trigger] new.contains_key(k) <==> (prev.contains_key(k) || t.contains(k))
    &&& forall|k: usize, x: ClassId|
        #![trigger new[k].contains(x)]
        new.contains_key(k) ==> (new[k].contains(x) <==> ((prev.contains_key(k) && prev[k].contains(x))
            || t.has_constraint(k, x.id)))
}

/// Collecting two types one after the other collects what either holds.
pub proof fn lemma_collected_compose(
    m0: Map<usize, Seq<ClassId>>,
    m1: Map<usize, Seq<ClassId>>,
    m2: Map<usize, Seq<ClassId>>,
    a: TypeModel,
    b: TypeModel,
    c: TypeModel,
)
    requires
        collected_from(m1, m0, a),
        collected_from(m2, m1, b),
        forall|k: usize| #[trigger] c.contains(k) <==> (a.contains(k) || b.contains(k)),
        forall|k: usize, x: usize| #[trigger] c.has_constraint(k, x) <==> (a.has_constraint(k, x)
            || b.has_constraint(k, x)),
    ensures
        collected_from(m2, m0, c),
{
    assert forall|k: usize, x: ClassId| m2.contains_key(k) implies (m2[k].contains(x) <==> ((
    m0.contains_key(k) && m0[k].contains(x)) || c.has_constraint(k, x.id))) by {
        assert(c.has_constraint(k, x.id) <==> (a.has_constraint(k, x.id) || b.has_constraint(k, x.id)));
        if m1.contains_key(k) {
            assert(m1[k].contains(x) <==> ((m0.contains_key(k) && m0[k].contains(x)) || a.has_constraint(k, x.id)));
        } else {
            assert(!a.contains(k));
            if a.has_constraint(k, x.id) {
                lemma_constraint_contains(a, k, x.id);
            }
        }
    }
    assert forall|k: usize| #[trigger] m2.contains_key(k) <==> (m0.contains_key(k) || c.contains(k)) by {
        assert(c.contains(k) <==> (a.contains(k) || b.contains(k)));
    }
}

/// A variable that a class constrains in a type occurs in it.
pub proof fn lemma_constraint_contains(t: TypeModel, k: usize, c: usize)
    requires
        t.has_constraint(k, c),
    ensures
        t.contains(k),
    decreases t,
{
    match t {
        TypeModel::Tuple(items) => {
            lemma_any_constraint(items, k, c);
            let j = choose|j: int| 0 <= j < items.len() && #[trigger] items[j].has_constraint(k, c);
            lemma_constraint_contains(items[j], k, c);
            lemma_any_contains(items, k);
        },
        TypeModel::Named(_, _, items) => {
            lemma_any_constraint(items, k, c);
            let j = choose|j: int| 0 <= j < items.len() && #[trigger] items[j].has_constraint(k, c);
            lemma_constraint_contains(items[j], k, c);
            lemma_any_contains(items, k);
        },
        TypeModel::Function(from, to) => {
            if from.has_constraint(k, c) {
                lemma_constraint_contains(*from, k, c);
            } else {
                lemma_constraint_contains(*to, k, c);
            }
        },
        _ => {},
    }
}

/// The first `j + 1` types of a sequence hold a variable or a constraint
/// exactly when the first `j` do or the type at `j` does.
pub proof fn lemma_prefix_step(items: Seq<TypeModel>, j: int)
    requires
        0 <= j < items.len(),
    ensures
        forall|k: usize| #[trigger] TypeModel::Tuple(items.subrange(0, j + 1)).contains(k) <==> (TypeModel::Tuple(
            items.subrange(0, j),
        ).contains(k) || items[j].contains(k)),
        forall|k: usize, c: usize| #[trigger] TypeModel::Tuple(items.subrange(0, j + 1)).has_constraint(k, c) <==> (
        TypeModel::Tuple(items.subrange(0, j)).has_constraint(k, c) || items[j].has_constraint(k, c)),
{
    let a = items.subrange(0, j);
    let b = items.subrange(0, j + 1);
    assert forall|k: usize| #[trigger] TypeModel::Tuple(b).contains(k) <==> (TypeModel::Tuple(a).contains(k)
        || items[j].contains(k)) by {
        lemma_any_contains(a, k);
        lemma_any_contains(b, k);
        if TypeModel::Tuple(a).contains(k) {
            let m = choose|m: int| 0 <= m < a.len() && #[trigger] a[m].contains(k);
            assert(b[m] == a[m]);
        }
        if items[j].contains(k) {
            assert(b[j] == items[j]);
        }
        if TypeModel::Tuple(b).contains(k) {
            let m = choose|m: int| 0 <= m < b.len() && #[trigger] b[m].contains(k);
            if m < j {
                assert(a[m] == b[m]);
            }
        }
    }
    assert forall|k: usize, c: usize| #[trigger] TypeModel::Tuple(b).has_constraint(k, c) <==> (TypeModel::Tuple(
        a,
    ).has_constraint(k, c) || items[j].has_constraint(k, c)) by {
        lemma_any_constraint(a, k, c);
        lemma_any_constraint(b, k, c);
        if TypeModel::Tuple(a).has_constraint(k, c) {
            let m = choose|m: int| 0 <= m < a.len() && #[trigger] a[m].has_constraint(k, c);
            assert(b[m] == a[m]);
        }
        if items[j].has_constraint(k, c) {
            assert(b[j] == items[j]);
        }
        if TypeModel::Tuple(b).has_constraint(k, c) {
            let m = choose|m: int| 0 <= m < b.len() && #[trigger] b[m].has_constraint(k, c);
            if m < j {
                assert(a[m] == b[m]);
            }
        }
    }
}

impl Type {
    /// Adds the type variables of the type, with their constraints, to
    /// `args`, and names the fixed type arguments in `context` by their own
    /// names where they have none yet.
    fn collect(&self, args: &mut Collector, context: &mut ResolverContext)
        requires
            old(args).wf(),
            old(context).wf(),
        ensures
            final(args).wf(),
            collected_from(final(args).view(), old(args).view(), self.model()),
            final(context).wf(),
            final(context).names() == self.model().fixed_names(old(context).names()),
            final(context).next_index() == old(context).next_index(),
            final(context).list_id() == old(context).list_id(),
            final(context).class_name_map() == old(context).class_name_map(),
        decreases self,
    {
        match self {
            Type::Tuple(items) => {
                Self::collect_items(items, args, context);
                proof {
                    assert(Self::models(items@).subrange(0, items@.len() as int) =~= Self::models(items@));
                }
            },
            Type::Named(_, _, items) => {
                Self::collect_items(items, args, context);
                proof {
                    let ms = Self::models(items@);
                    assert(ms.subrange(0, items@.len() as int) =~= ms);
                    assert forall|k: usize| #[trigger] self.model().contains(k) <==> TypeModel::Tuple(ms).contains(k) by {}
                    assert forall|k: usize, c: usize| #[trigger] self.model().has_constraint(k, c) <==> TypeModel::Tuple(ms).has_constraint(k, c) by {}
                    let n = args.view();
                    let o = old(args).view();
                    assert forall|k: usize| #[trigger] n.contains_key(k) <==> (o.contains_key(k) || self.model().contains(k)) by {
                        assert(self.model().contains(k) <==> TypeModel::Tuple(ms).contains(k));
                    }
                    assert forall|k: usize, x: ClassId| n.contains_key(k) implies (n[k].contains(x) <==> ((o.contains_key(k) && o[k].contains(x)) || self.model().has_constraint(k, x.id))) by {
                        assert(self.model().has_constraint(k, x.id) <==> TypeModel::Tuple(ms).has_constraint(k, x.id));
                    }
                }
            },
            Type::Function(from, to) => {
                let ghost m0 = args.view();
                from.collect(args, context);
                let ghost m1 = args.view();
                to.collect(args, context);
                proof {
                    lemma_collected_compose(m0, m1, args.view(), from.model(), to.model(), self.model());
                }
            },
            Type::Var(index, constraints) => {
                Self::collect_var(*index, constraints, args);
            },
            Type::FixedTypeArg(name, index, constraints) => {
                Self::collect_var(*index, constraints, args);
                context.add_named_type_arg(*index, name.clone());
            },
        }
    }

    /// Adds the type variable `index` with the classes `constraints` to `args`.
    fn collect_var(index: usize, constraints: &Vec<ClassId>, args: &mut Collector)
        requires
            old(args).wf(),
        ensures
            final(args).wf(),
            collected_from(final(args).view(), old(args).view(), TypeModel::Var(index, class_ids_model(constraints@))),
    {
        let ghost m0 = args.view();
        let ghost t = TypeModel::Var(index, class_ids_model(constraints@));
        args.add_empty(index);
        let mut j: usize = 0;
        while j < constraints.len()
            invariant
                j <= constraints@.len(),
                args.wf(),
                forall|k: usize| #[trigger] args.view().contains_key(k) <==> (m0.contains_key(k) || k == index),
                forall|k: usize| k != index && #[trigger] m0.contains_key(k) ==> args.view()[k] == m0[k],
                forall|x: ClassId| #[trigger] args.view()[index].contains(x) <==> ((m0.contains_key(index)
                    && m0[index].contains(x)) || constraints@.subrange(0, j as int).contains(x)),
            decreases constraints@.len() - j,
        {
            let ghost before = args.view();
            args.add(index, constraints[j]);
            proof {
                let sub = constraints@.subrange(0, j + 1);
                assert(sub =~= constraints@.subrange(0, j as int).push(constraints@[j as int]));
                assert forall|x: ClassId| #[trigger] args.view()[index].contains(x) <==> ((m0.contains_key(index)
                    && m0[index].contains(x)) || sub.contains(x)) by {
                    if x == constraints@[j as int] {
                        assert(sub[j as int] == x);
                    }
                    if sub.contains(x) && x != constraints@[j as int] {
                        let m = choose|m: int| 0 <= m < sub.len() && sub[m] == x;
                        assert(constraints@.subrange(0, j as int)[m] == x);
                    }
                }
                assert forall|k: usize| #[trigger] args.view().contains_key(k) <==> (m0.contains_key(k) || k == index) by {
                    assert(args.view().dom().contains(k) == before.dom().insert(index).contains(k));
                }
                assert forall|k: usize| k != index && #[trigger] m0.contains_key(k) implies args.view()[k] == m0[k] by {
                    assert(before.contains_key(k));
                }
            }
            j += 1;
        }
        proof {
            assert(constraints@.subrange(0, j as int) =~= constraints@);
            assert forall|x: ClassId| constraints@.contains(x) <==> class_ids_model(constraints@).contains(x.id) by {
                if constraints@.contains(x) {
                    let m = choose|m: int| 0 <= m < constraints@.len() && constraints@[m] == x;
                    assert(class_ids_model(constraints@)[m] == x.id);
                }
                if class_ids_model(constraints@).contains(x.id) {
                    let m = choose|m: int| 0 <= m < class_ids_model(constraints@).len() && class_ids_model(constraints@)[m] == x.id;
                    assert(constraints@[m] == ClassId { id: x.id });
                }
            }
            assert forall|k: usize, x: ClassId| args.view().contains_key(k) implies (args.view()[k].contains(x) <==> ((m0.contains_key(k) && m0[k].contains(x)) || t.has_constraint(k, x.id))) by {
                if k == index {
                    assert(t.has_constraint(k, x.id) == class_ids_model(constraints@).contains(x.id));
                }
            }
        }
    }

    /// Adds the type variables of each of the types to `args`, from left to right.
    fn collect_items(items: &Vec<Type>, args: &mut Collector, context: &mut ResolverContext)
        requires
            old(args).wf(),
            old(context).wf(),
        ensures
            final(args).wf(),
            collected_from(final(args).view(), old(args).view(), TypeModel::Tuple(Self::models(items@))),
            final(context).wf(),
            final(context).names() == TypeModel::fixed_names_seq(Self::models(items@), old(context).names()),
            final(context).next_index() == old(context).next_index(),
            final(context).list_id() == old(context).list_id(),
            final(context).class_name_map() == old(context).class_name_map(),
        decreases items,
    {
        let ghost ms = Self::models(items@);
        let ghost m0 = args.view();
        let ghost n0 = context.names();
        let mut i: usize = 0;
        proof {
            assert(ms.subrange(0, 0) =~= Seq::<TypeModel>::empty());
            lemma_any_contains(Seq::<TypeModel>::empty(), 0);
            assert forall|k: usize| !#[trigger] TypeModel::Tuple(Seq::<TypeModel>::empty()).contains(k) by {
                lemma_any_contains(Seq::<TypeModel>::empty(), k);
            }
            assert forall|k: usize, c: usize| !#[trigger] TypeModel::Tuple(Seq::<TypeModel>::empty()).has_constraint(k, c) by {
                lemma_any_constraint(Seq::<TypeModel>::empty(), k, c);
            }
        }
        while i < items.len()
            invariant
                i <= items@.len(),
                ms == Self::models(items@),
                args.wf(),
                context.wf(),
                collected_from(args.view(), m0, TypeModel::Tuple(ms.subrange(0, i as int))),
                context.names() == TypeModel::fixed_names_seq(ms.subrange(0, i as int), n0),
                context.next_index() == old(context).next_index(),
                context.list_id() == old(context).list_id(),
                context.class_name_map() == old(context).class_name_map(),
            decreases items@.len() - i,
        {
            let ghost m1 = args.view();
            items[i].collect(args, context);
            proof {
                assert(ms[i as int] == items@[i as int].model());
                lemma_prefix_step(ms, i as int);
                lemma_collected_compose(m0, m1, args.view(), TypeModel::Tuple(ms.subrange(0, i as int)), ms[i as int], TypeModel::Tuple(ms.subrange(0, i + 1)));
                let next = ms.subrange(0, i + 1);
                assert(next.subrange(0, i as int) =~= ms.subrange(0, i as int));
            }
            i += 1;
        }
        assert(ms.subrange(0, i as int) =~= ms);
    }
}

/// Whether `e` lists the type variables of `t` in increasing order, each
/// once, with the classes that constrain it in `t` in increasing order.
pub open spec fn collects(e: Seq<(usize, Seq<ClassId>)>, t: TypeModel) -> bool {
    &&& keys_increasing(e)
    &&& forall|i: int| 0 <= i < e.len() ==> ids_increasing(#[trigger] e[i].1)
    &&& collected_from(assoc_map(e), Map::empty(), t)
}

/// The type variables of `t` in increasing order, each with the classes that
/// constrain it in increasing order (see [`lemma_collects_unique`]).
pub open spec fn collection(t: TypeModel) -> Seq<(usize, Seq<ClassId>)> {
    choose|e: Seq<(usize, Seq<ClassId>)>| collects(e, t)
}

/// The keys of the pairs.
pub open spec fn entry_keys(e: Seq<(usize, Seq<ClassId>)>) -> Seq<usize> {
    Seq::new(e.len(), |i: int| e[i].0)
}

/// `names` after each of `keys` that has no name got a fresh one, in order,
/// numbered from `next`; with the number after the last one given.
pub open spec fn fresh_names(names: Map<usize, Seq<char>>, keys: Seq<usize>, next: nat) -> (Map<usize, Seq<char>>, nat)
    decreases keys.len(),
{
    if keys.len() == 0 {
        (names, next)
    } else {
        let (n, x) = fresh_names(names, keys.drop_last(), next);
        let k = keys.last();
        if n.contains_key(k) {
            (n, x)
        } else {
            (n.insert(k, fresh_arg_name(x)), x + 1)
        }
    }
}

/// For each type variable in order, and each of its classes in order, the
/// name of the class, a space and the name of the variable.
pub open spec fn constraint_texts(
    e: Seq<(usize, Seq<ClassId>)>,
    names: Map<usize, Seq<char>>,
    classes: Map<usize, Seq<char>>,
) -> Seq<Seq<char>>
    decreases e.len(),
{
    if e.len() == 0 {
        Seq::empty()
    } else {
        constraint_texts(e.drop_last(), names, classes) + Seq::new(
            e.last().1.len(),
            |i: int| classes[e.last().1[i].id] + " "@ + names[e.last().0],
        )
    }
}

/// What precedes a type with constraints: the constraints in parentheses,
/// separated by commas, and an arrow; nothing where there is none.
pub open spec fn constraint_prefix(texts: Seq<Seq<char>>) -> Seq<char> {
    if texts.len() == 0 {
        Seq::empty()
    } else {
        "("@ + join(texts, ", "@) + ") => "@
    }
}

/// The names of the type variables once `t` is shown in a context with the
/// names `names`, whose next fresh name has the number `next`.
pub open spec fn names_for(t: TypeModel, names: Map<usize, Seq<char>>, next: nat) -> (Map<usize, Seq<char>>, nat) {
    fresh_names(t.fixed_names(names), entry_keys(collection(t)), next)
}

/// The text of `t` as it is shown to the user with its constraints, in a
/// context with the names `names`, the next fresh name numbered `next`, the
/// class names `classes` and the list type `list_id`.
pub open spec fn resolved_type_text(
    t: TypeModel,
    names: Map<usize, Seq<char>>,
    next: nat,
    classes: Map<usize, Seq<char>>,
    list_id: usize,
) -> Seq<char> {
    let all_names = names_for(t, names, next).0;
    constraint_prefix(constraint_texts(collection(t), all_names, classes)) + t.resolved(false, all_names, list_id)
}

/// Two association lists with keys in increasing order that stand for the
/// same map are the same list.
pub proof fn lemma_sorted_assoc_unique<V>(e1: Seq<(usize, V)>, e2: Seq<(usize, V)>)
    requires
        keys_increasing(e1),
        keys_increasing(e2),
        assoc_map(e1) == assoc_map(e2),
    ensures
        e1 == e2,
    decreases e1.len(),
{
    if e1.len() == 0 || e2.len() == 0 {
        if e1.len() > 0 {
            assert(assoc_map(e1).contains_key(e1.last().0));
        }
        if e2.len() > 0 {
            assert(assoc_map(e2).contains_key(e2.last().0));
        }
        assert(e1 =~= e2);
    } else {
        let k1 = e1.last().0;
        let k2 = e2.last().0;
        let d1 = e1.drop_last();
        let d2 = e2.drop_last();
        assert(assoc_map(e1).contains_key(k1));
        assert(assoc_map(e2).contains_key(k2));
        lemma_assoc_contains(e1, k2);
        lemma_assoc_contains(e2, k1);
        let i = choose|i: int| 0 <= i < e1.len() && (#[trigger] e1[i]).0 == k2;
        let j = choose|j: int| 0 <= j < e2.len() && (#[trigger] e2[j]).0 == k1;
        if i < e1.len() - 1 {
            assert(e1[i].0 < e1[e1.len() - 1].0);
        }
        if j < e2.len() - 1 {
            assert(e2[j].0 < e2[e2.len() - 1].0);
        }
        assert(k1 == k2);
        assert(e1.last().1 == assoc_map(e1)[k1]);
        assert(e2.last().1 == assoc_map(e2)[k2]);
        assert(keys_increasing(d1)) by {
            assert forall|a: int, b: int| 0 <= a < b < d1.len() implies d1[a].0 < d1[b].0 by {
                assert(d1[a] == e1[a] && d1[b] == e1[b]);
            }
        }
        assert(keys_increasing(d2)) by {
            assert forall|a: int, b: int| 0 <= a < b < d2.len() implies d2[a].0 < d2[b].0 by {
                assert(d2[a] == e2[a] && d2[b] == e2[b]);
            }
        }
        assert(!assoc_map(d1).contains_key(k1)) by {
            lemma_assoc_contains(d1, k1);
            if assoc_map(d1).contains_key(k1) {
                let m = choose|m: int| 0 <= m < d1.len() && (#[trigger] d1[m]).0 == k1;
                assert(e1[m].0 < e1[e1.len() - 1].0);
            }
        }
        assert(!assoc_map(d2).contains_key(k2)) by {
            lemma_assoc_contains(d2, k2);
            if assoc_map(d2).contains_key(k2) {
                let m = choose|m: int| 0 <= m < d2.len() && (#[trigger] d2[m]).0 == k2;
                assert(e2[m].0 < e2[e2.len() - 1].0);
            }
        }
        assert(assoc_map(d1) =~= assoc_map(e1).remove(k1));
        assert(assoc_map(d2) =~= assoc_map(e2).remove(k2));
        lemma_sorted_assoc_unique(d1, d2);
        assert(e1 =~= d1.push(e1.last()));
        assert(e2 =~= d2.push(e2.last()));
        assert(e1.last() == e2.last());
    }
}

/// The type variables of a type and their constraints, listed in increasing
/// order, can be listed in one way only.
pub proof fn lemma_collects_unique(e1: Seq<(usize, Seq<ClassId>)>, e2: Seq<(usize, Seq<ClassId>)>, t: TypeModel)
    requires
        collects(e1, t),
        collects(e2, t),
    ensures
        e1 == e2,
{
    let m1 = assoc_map(e1);
    let m2 = assoc_map(e2);
    lemma_keys_increasing_distinct(e1);
    lemma_keys_increasing_distinct(e2);
    assert forall|k: usize| #[trigger] m1.contains_key(k) implies m2.contains_key(k) && m1[k] == m2[k] by {
        assert(t.contains(k));
        assert(m2.contains_key(k));
        lemma_assoc_contains(e1, k);
        lemma_assoc_contains(e2, k);
        let i = choose|i: int| 0 <= i < e1.len() && (#[trigger] e1[i]).0 == k;
        let j = choose|j: int| 0 <= j < e2.len() && (#[trigger] e2[j]).0 == k;
        lemma_assoc_index(e1, i);
        lemma_assoc_index(e2, j);
        assert(ids_increasing(e1[i].1));
        assert(ids_increasing(e2[j].1));
        assert forall|x: ClassId| m1[k].contains(x) <==> m2[k].contains(x) by {
            assert(m1[k].contains(x) <==> t.has_constraint(k, x.id));
            assert(m2[k].contains(x) <==> t.has_constraint(k, x.id));
        }
        lemma_increasing_unique(m1[k], m2[k]);
    }
    assert forall|k: usize| #[trigger] m2.contains_key(k) implies m1.contains_key(k) by {
        assert(t.contains(k));
    }
    assert(m1 =~= m2);
    lemma_sorted_assoc_unique(e1, e2);
}

/// Each type variable that had no name gets a fresh name `t<n>` with a
/// number from `next` on, and no two of them get the same name.
pub proof fn lemma_fresh_names_distinct(names: Map<usize, Seq<char>>, keys: Seq<usize>, next: nat)
    ensures
        forall|k: usize|
            #[trigger] fresh_names(names, keys, next).0.contains_key(k) && !names.contains_key(k) ==> exists|n: nat|
                next <= n < fresh_names(names, keys, next).1 && fresh_names(names, keys, next).0[k] == fresh_arg_name(n),
        forall|k1: usize, k2: usize|
            #![trigger fresh_names(names, keys, next).0[k1], fresh_names(names, keys, next).0[k2]]
            fresh_names(names, keys, next).0.contains_key(k1) && !names.contains_key(k1) && fresh_names(
                names,
                keys,
                next,
            ).0.contains_key(k2) && !names.contains_key(k2) && k1 != k2 ==> fresh_names(names, keys, next).0[k1]
                != fresh_names(names, keys, next).0[k2],
    decreases keys.len(),
{
    lemma_fresh_names(names, keys, next);
    if keys.len() > 0 {
        let d = keys.drop_last();
        lemma_fresh_names_distinct(names, d, next);
        lemma_fresh_names(names, d, next);
        let (n, x) = fresh_names(names, d, next);
        let kk = keys.last();
        let (m, y) = fresh_names(names, keys, next);
        if !n.contains_key(kk) {
            assert forall|k: usize| #[trigger] m.contains_key(k) && !names.contains_key(k) implies exists|q: nat|
                next <= q < y && m[k] == fresh_arg_name(q) by {
                if k == kk {
                    assert(next <= x < y && m[k] == fresh_arg_name(x));
                } else {
                    assert(n.contains_key(k));
                    let q = choose|q: nat| next <= q < x && n[k] == fresh_arg_name(q);
                    assert(next <= q < y && m[k] == fresh_arg_name(q));
                }
            }
            assert forall|k1: usize, k2: usize|
                #![trigger m[k1], m[k2]]
                m.contains_key(k1) && !names.contains_key(k1) && m.contains_key(k2) && !names.contains_key(k2) && k1
                    != k2 implies m[k1] != m[k2] by {
                if k1 == kk || k2 == kk {
                    let other = if k1 == kk { k2 } else { k1 };
                    assert(n.contains_key(other));
                    assert(n[other] == m[other]);
                    let q = choose|q: nat| next <= q < x && n[other] == fresh_arg_name(q);
                    if m[k1] == m[k2] {
                        reveal_strlit("t");
                        assert(fresh_arg_name(q) == fresh_arg_name(x));
                        assert(fresh_arg_name(q).drop_first() =~= decimal(q));
                        assert(fresh_arg_name(x).drop_first() =~= decimal(x));
                        lemma_decimal_injective(q, x);
                    }
                } else {
                    assert(n[k1] == m[k1] && n[k2] == m[k2]);
                    assert(n[k1] != n[k2]);
                }
            }
        } else {
            assert(m == n && y == x);
        }
    }
}

/// What fresh names keep and give: earlier names stay, each of the keys gets
/// a name, nothing else does, and at most one number is used per key.
pub proof fn lemma_fresh_names(names: Map<usize, Seq<char>>, keys: Seq<usize>, next: nat)
    ensures
        next <= fresh_names(names, keys, next).1 <= next + keys.len(),
        forall|k: usize| #[trigger] names.contains_key(k) ==> fresh_names(names, keys, next).0.contains_key(k)
            && fresh_names(names, keys, next).0[k] == names[k],
        forall|i: int| 0 <= i < keys.len() ==> fresh_names(names, keys, next).0.contains_key(#[trigger] keys[i]),
        forall|k: usize| #[trigger] fresh_names(names, keys, next).0.contains_key(k) ==> names.contains_key(k)
            || keys.contains(k),
    decreases keys.len(),
{
    if keys.len() > 0 {
        let d = keys.drop_last();
        lemma_fresh_names(names, d, next);
        assert forall|i: int| 0 <= i < keys.len() implies fresh_names(names, keys, next).0.contains_key(#[trigger] keys[i]) by {
            if i < keys.len() - 1 {
                assert(d[i] == keys[i]);
            }
        }
        assert forall|k: usize| #[trigger] fresh_names(names, keys, next).0.contains_key(k) implies names.contains_key(k)
            || keys.contains(k) by {
            if !names.contains_key(k) && k != keys.last() {
                assert(fresh_names(names, d, next).0.contains_key(k));
                assert(d.contains(k));
                let m = choose|m: int| 0 <= m < d.len() && d[m] == k;
                assert(keys[m] == k);
            }
            if k == keys.last() {
                assert(keys[keys.len() - 1] == k);
            }
        }
    }
}

impl Type {
    /// The text of the type as it is shown to the user, preceded by the
    /// constraints on its type variables (see [`resolved_type_text`]). Fixed
    /// type arguments keep their names; the other type variables, in
    /// increasing order, get fresh names from the context where they have
    /// none yet.
    pub fn get_resolved_type_string_with_context(&self, resolver_context: &mut ResolverContext) -> (r: String)
        requires
            old(resolver_context).wf(),
            old(resolver_context).next_index() + collection(self.model()).len() <= usize::MAX,
            self.model().lists_ok(old(resolver_context).list_id().id),
            forall|k: usize, c: usize| #[trigger] self.model().has_constraint(k, c)
                ==> old(resolver_context).class_name_map().contains_key(c),
        ensures
            final(resolver_context).wf(),
            r@ == resolved_type_text(
                self.model(),
                old(resolver_context).names(),
                old(resolver_context).next_index() as nat,
                old(resolver_context).class_name_map(),
                old(resolver_context).list_id().id,
            ),
            final(resolver_context).names() == names_for(
                self.model(),
                old(resolver_context).names(),
                old(resolver_context).next_index() as nat,
            ).0,
            final(resolver_context).next_index() == names_for(
                self.model(),
                old(resolver_context).names(),
                old(resolver_context).next_index() as nat,
            ).1,
            final(resolver_context).list_id() == old(resolver_context).list_id(),
            final(resolver_context).class_name_map() == old(resolver_context).class_name_map(),
    {
        let ghost t = self.model();
        let ghost classes = resolver_context.class_name_map();
        let ghost list_id = resolver_context.list_id().id;
        let mut args = Collector::new();
        proof {
            assert(args.entries() =~= Seq::<(usize, Seq<ClassId>)>::empty());
            assert(args.view() =~= Map::<usize, Seq<ClassId>>::empty());
        }
        self.collect(&mut args, resolver_context);
        let ghost e = args.entries();
        proof {
            assert(collects(e, t));
            assert(exists|x: Seq<(usize, Seq<ClassId>)>| collects(x, t));
            lemma_collects_unique(e, collection(t), t);
            lemma_keys_increasing_distinct(e);
        }
        let ghost names1 = resolver_context.names();
        let ghost next0 = resolver_context.next_index() as nat;
        let ghost keys = entry_keys(e);
        let mut i: usize = 0;
        proof {
            assert(keys.subrange(0, 0) =~= Seq::<usize>::empty());
        }
        while i < args.items.len()
            invariant
                i <= args.items@.len(),
                e == args.entries(),
                keys == entry_keys(e),
                resolver_context.wf(),
                resolver_context.list_id().id == list_id,
                resolver_context.class_name_map() == classes,
                next0 + e.len() <= usize::MAX,
                (resolver_context.names(), resolver_context.next_index() as nat) == fresh_names(
                    names1,
                    keys.subrange(0, i as int),
                    next0,
                ),
            decreases args.items@.len() - i,
        {
            proof {
                lemma_fresh_names(names1, keys.subrange(0, i as int), next0);
            }
            resolver_context.add_type_arg(args.items[i].0);
            proof {
                let sub = keys.subrange(0, i + 1);
                assert(sub.drop_last() =~= keys.subrange(0, i as int));
                assert(sub.last() == args.items@[i as int].0);
            }
            i += 1;
        }
        proof {
            assert(keys.subrange(0, i as int) =~= keys);
            lemma_fresh_names(names1, keys, next0);
        }
        let ghost names2 = resolver_context.names();
        let mut constraint_strings: Vec<String> = Vec::new();
        let mut i: usize = 0;
        proof {
            assert(e.subrange(0, 0) =~= Seq::<(usize, Seq<ClassId>)>::empty());
            assert(string_views(constraint_strings@) =~= Seq::<Seq<char>>::empty());
        }
        while i < args.items.len()
            invariant
                i <= args.items@.len(),
                e == args.entries(),
                keys == entry_keys(e),
                collects(e, t),
                distinct_keys(e),
                resolver_context.wf(),
                resolver_context.names() == names2,
                resolver_context.class_name_map() == classes,
                forall|m: int| 0 <= m < keys.len() ==> names2.contains_key(#[trigger] keys[m]),
                forall|k: usize, c: usize| #[trigger] t.has_constraint(k, c) ==> classes.contains_key(c),
                string_views(constraint_strings@) == constraint_texts(e.subrange(0, i as int), names2, classes),
            decreases args.items@.len() - i,
        {
            let ghost key = e[i as int].0;
            let ghost cls = e[i as int].1;
            let ghost before = string_views(constraint_strings@);
            proof {
                lemma_assoc_index(e, i as int);
                assert(keys[i as int] == key);
                assert(args.items@[i as int].0 == key);
            }
            let mut j: usize = 0;
            proof {
                assert(before =~= before + Seq::new(0, |m: int| classes[cls[m].id] + " "@ + names2[key]));
            }
            while j < args.items[i].1.len()
                invariant
                    i < args.items@.len(),
                    j <= args.items@[i as int].1@.len(),
                    e == args.entries(),
                    key == e[i as int].0,
                    cls == e[i as int].1,
                    cls == args.items@[i as int].1@,
                    key == args.items@[i as int].0,
                    assoc_map(e).contains_key(key),
                    assoc_map(e)[key] == cls,
                    collects(e, t),
                    resolver_context.wf(),
                    resolver_context.names() == names2,
                    resolver_context.class_name_map() == classes,
                    names2.contains_key(key),
                    forall|k: usize, c: usize| #[trigger] t.has_constraint(k, c) ==> classes.contains_key(c),
                    string_views(constraint_strings@) == before + Seq::new(
                        j as nat,
                        |m: int| classes[cls[m].id] + " "@ + names2[key],
                    ),
                decreases args.items@[i as int].1@.len() - j,
            {
                let class_id = args.items[i].1[j];
                proof {
                    assert(cls[j as int] == class_id);
                    assert(cls.contains(class_id));
                    assert(t.has_constraint(key, class_id.id));
                }
                let class_name = resolver_context.get_class_name(&class_id);
                let arg_name = resolver_context.get_type_arg_name(args.items[i].0);
                let mut c_str = class_name.clone();
                c_str.append(" ");
                c_str.append(arg_name.as_str());
                let ghost prev = constraint_strings@;
                constraint_strings.push(c_str);
                proof {
                    assert(string_views(constraint_strings@) =~= string_views(prev).push(c_str@));
                    assert(string_views(constraint_strings@) =~= before + Seq::new(
                        (j + 1) as nat,
                        |m: int| classes[cls[m].id] + " "@ + names2[key],
                    ));
                }
                j += 1;
            }
            proof {
                let sub = e.subrange(0, i + 1);
                assert(sub.drop_last() =~= e.subrange(0, i as int));
                assert(sub.last() == e[i as int]);
            }
            i += 1;
        }
        proof {
            assert(e.subrange(0, i as int) =~= e);
            assert forall|k: usize| #[trigger] t.contains(k) implies names2.contains_key(k) by {
                assert(assoc_map(e).contains_key(k));
                lemma_assoc_contains(e, k);
                let m = choose|m: int| 0 <= m < e.len() && (#[trigger] e[m]).0 == k;
                assert(keys[m] == k);
            }
        }
        let mut result = String::new();
        if constraint_strings.len() > 0 {
            result.append("(");
            let joined = join_strings(&constraint_strings, ", ");
            result.append(joined.as_str());
            result.append(") => ");
        }
        let type_str = self.as_string(false, resolver_context);
        result.append(type_str.as_str());
        result
    }

    /// The text of the type as it is shown to the user, with its constraints,
    /// in a fresh context: `class_names` names the classes of the program (a
    /// later pair wins over an earlier one with the same class) and
    /// `list_type_id` is the list type.
    pub fn get_resolved_type_string(&self, class_names: &Vec<(String, ClassId)>, list_type_id: TypeDefId) -> (r: String)
        requires
            collection(self.model()).len() <= usize::MAX,
            self.model().lists_ok(list_type_id.id),
            forall|k: usize, c: usize| #[trigger] self.model().has_constraint(k, c)
                ==> assoc_map(inverted_class_entries(class_names@)).contains_key(c),
        ensures
            r@ == resolved_type_text(
                self.model(),
                Map::empty(),
                0,
                assoc_map(inverted_class_entries(class_names@)),
                list_type_id.id,
            ),
    {
        let mut resolver_context = ResolverContext::new(class_names, list_type_id);
        self.get_resolved_type_string_with_context(&mut resolver_context)
    }
}

impl ConcreteModel {
    /// The text of a concrete type as its `Display` writes it: tuples in
    /// parentheses, a named type followed by its arguments, functions with an arrow.
    pub open spec fn display(self) -> Seq<char>
        decreases self,
    {
        match self {
            ConcreteModel::Tuple(items) => "("@ + join(ConcreteModel::displays(items), ", "@) + ")"@,
            ConcreteModel::Named(name, _, items) => if items.len() == 0 {
                name
            } else {
                name + " "@ + join(ConcreteModel::displays(items), " "@)
            },
            ConcreteModel::Function(from, to) => from.display() + " -> "@ + to.display(),
        }
    }

    /// The texts of each of the concrete types.
    pub open spec fn displays(items: Seq<ConcreteModel>) -> Seq<Seq<char>>
        decreases items,
    {
        if items.len() == 0 {
            Seq::empty()
        } else {
            ConcreteModel::displays(items.subrange(0, items.len() - 1)).push(
                items[items.len() - 1].display(),
            )
        }
    }
}

impl ConcreteType {
    /// The text of the concrete type, as its `Display` writes it (see [`ConcreteModel::display`]).
    pub fn to_string(&self) -> (r: String)
        ensures
            r@ == self.model().display(),
        decreases self,
    {
        match self {
            ConcreteType::Tuple(items) => {
                let texts = Self::item_strings(items);
                let mut s = String::from_str("(");
                let joined = join_strings(&texts, ", ");
                s.append(joined.as_str());
                s.append(")");
                s
            },
            ConcreteType::Named(name, _, items) => {
                let texts = Self::item_strings(items);
                let mut s = name.clone();
                if items.len() > 0 {
                    s.append(" ");
                    let joined = join_strings(&texts, " ");
                    s.append(joined.as_str());
                }
                s
            },
            ConcreteType::Function(from, to) => {
                let mut s = from.to_string();
                s.append(" -> ");
                let t = to.to_string();
                s.append(t.as_str());
                s
            },
        }
    }

    /// The text of each of the concrete types.
    fn item_strings(items: &Vec<ConcreteType>) -> (r: Vec<String>)
        ensures
            string_views(r@) == ConcreteModel::displays(Self::models(items@)),
        decreases items,
    {
        let ghost ms = Self::models(items@);
        let mut r: Vec<String> = Vec::new();
        let mut i: usize = 0;
        while i < items.len()
            invariant
                i <= items@.len(),
                ms == Self::models(items@),
                string_views(r@) == ConcreteModel::displays(ms.subrange(0, i as int)),
            decreases items@.len() - i,
        {
            let t = items[i].to_string();
            let ghost before = r@;
            r.push(t);
            proof {
                let next = ms.subrange(0, i + 1);
                assert(next.subrange(0, i as int) =~= ms.subrange(0, i as int));
                assert(next[i as int] == items@[i as int].model());
                assert(string_views(r@) =~= string_views(before).push(t@));
            }
            i += 1;
        }
        assert(ms.subrange(0, i as int) =~= ms);
        r
    }
}

} // verus!
