use crate::ir::class::ClassId;
use crate::util::assoc_map;
use crate::util::distinct_keys;
use crate::util::lemma_assoc_contains;
use crate::util::lemma_assoc_index;
use crate::util::lemma_assoc_push;
use crate::util::lemma_assoc_update;
use crate::util::ids_increasing;
use crate::util::insert_class;
use crate::util::lemma_increasing_unique;
use crate::util::same_classes_with;
use crate::util::str_eq;
use crate::util::Counter;
use vstd::prelude::*;

verus! {

/// What is known of one type argument: its position and its class constraints.
#[derive(Debug, Clone)]
pub struct TypeArgInfo {
    pub index: usize,
    pub constraints: Vec<ClassId>,
}

impl TypeArgInfo {
    /// The position and the constraints as plain values.
    pub open spec fn model(&self) -> (usize, Seq<ClassId>) {
        (self.index, self.constraints@)
    }
}

/// Adding a constraint that a strictly increasing list already holds gives
/// back the same list; in particular adding the same constraint twice does
/// no more than adding it once.
pub proof fn lemma_add_present_constraint(prev: Seq<ClassId>, new: Seq<ClassId>, c: ClassId)
    requires
        ids_increasing(prev),
        prev.contains(c),
        ids_increasing(new),
        same_classes_with(new, prev, c),
    ensures
        new == prev,
{
    lemma_increasing_unique(new, prev);
}

/// The classes of `prev` and `c`, sorted by identifier and each once.
fn sorted_classes_with(prev: &Vec<ClassId>, c: ClassId) -> (r: Vec<ClassId>)
    ensures
        ids_increasing(r@),
        same_classes_with(r@, prev@, c),
{
    let mut r: Vec<ClassId> = Vec::new();
    let mut i: usize = 0;
    while i < prev.len()
        invariant
            i <= prev@.len(),
            ids_increasing(r@),
            forall|x: ClassId| r@.contains(x) <==> prev@.subrange(0, i as int).contains(x),
        decreases prev@.len() - i,
    {
        let ghost before = r@;
        insert_class(&mut r, prev[i]);
        proof {
            let sub = prev@.subrange(0, i + 1);
            assert(sub =~= prev@.subrange(0, i as int).push(prev@[i as int]));
            assert forall|x: ClassId| r@.contains(x) <==> sub.contains(x) by {
                if x == prev@[i as int] {
                    assert(sub[i as int] == x);
                }
                if sub.contains(x) && x != prev@[i as int] {
                    let k = choose|k: int| 0 <= k < sub.len() && sub[k] == x;
                    assert(prev@.subrange(0, i as int)[k] == x);
                }
            }
        }
        i += 1;
    }
    assert(prev@.subrange(0, i as int) =~= prev@);
    insert_class(&mut r, c);
    r
}

/// The type arguments of one declaration: each name with its position, in the
/// order of declaration, and its class constraints.
#[derive(Debug)]
pub struct TypeArgResolver {
    args: Vec<(String, TypeArgInfo)>,
    index: Counter,
}

/// The argument entries by the characters of their names.
pub open spec fn arg_entries(v: Seq<(String, TypeArgInfo)>) -> Seq<(Seq<char>, (usize, Seq<ClassId>))> {
    Seq::new(v.len(), |i: int| (v[i].0@, v[i].1.model()))
}

/// Where `arg` stands among the entries, if it is there.
fn find_arg(v: &Vec<(String, TypeArgInfo)>, arg: &str) -> (r: Option<usize>)
    ensures
        match r {
            Some(i) => i < v@.len() && v@[i as int].0@ == arg@,
            None => forall|j: int| 0 <= j < v@.len() ==> (#[trigger] v@[j]).0@ != arg@,
        },
{
    let mut i: usize = 0;
    while i < v.len()
        invariant
            i <= v@.len(),
            forall|j: int| 0 <= j < i ==> (#[trigger] v@[j]).0@ != arg@,
        decreases v@.len() - i,
    {
        if str_eq(v[i].0.as_str(), arg) {
            return Some(i);
        }
        i += 1;
    }
    None
}

impl TypeArgResolver {
    /// Each argument name with its position and its constraints.
    pub closed spec fn view(&self) -> Map<Seq<char>, (usize, Seq<ClassId>)> {
        assoc_map(arg_entries(self.args@))
    }

    /// The position that the next explicit argument gets.
    pub closed spec fn next_index(&self) -> usize {
        self.index.value
    }

    /// Names occur once each, every position was handed out before, and no
    /// two names share a position.
    pub closed spec fn wf(&self) -> bool {
        &&& distinct_keys(arg_entries(self.args@))
        &&& forall|i: int|
            0 <= i < self.args@.len() ==> (#[trigger] self.args@[i]).1.index < self.index.value
        &&& forall|i: int, j: int|
            0 <= i < self.args@.len() && 0 <= j < self.args@.len() && i != j ==> (#[trigger] self.args@[i]).1.index
                != (#[trigger] self.args@[j]).1.index
    }

    pub fn new() -> (r: TypeArgResolver)
        ensures
            r.wf(),
            r.view() == Map::<Seq<char>, (usize, Seq<ClassId>)>::empty(),
            r.next_index() == 0,
    {
        let r = TypeArgResolver { args: Vec::new(), index: Counter::new() };
        assert(arg_entries(r.args@) =~= Seq::empty());
        r
    }

    /// Declares the argument `arg` with the given constraints, under the next
    /// position, which it returns; a name declared again takes the new entry.
    pub fn add_explicit(&mut self, arg: String, constraints: Vec<ClassId>) -> (r: usize)
        requires
            old(self).wf(),
            old(self).next_index() < usize::MAX,
        ensures
            final(self).wf(),
            r == old(self).next_index(),
            final(self).next_index() == old(self).next_index() + 1,
            final(self).view() == old(self).view().insert(arg@, (r, constraints@)),
    {
        let ghost entries = arg_entries(self.args@);
        let index = self.index.next();
        let info = TypeArgInfo { index: index, constraints: constraints };
        let ghost m = info.model();
        match find_arg(&self.args, arg.as_str()) {
            Some(i) => {
                let ghost key = self.args@[i as int].0@;
                self.args.set(i, (arg, info));
                proof {
                    assert(arg_entries(self.args@) =~= entries.update(i as int, (entries[i as int].0, m)));
                    lemma_assoc_update(entries, i as int, m);
                }
            },
            None => {
                let ghost key = arg@;
                self.args.push((arg, info));
                proof {
                    assert(arg_entries(self.args@) =~= entries.push((key, m)));
                    lemma_assoc_contains(entries, key);
                    assert(!assoc_map(entries).contains_key(key)) by {
                        if assoc_map(entries).contains_key(key) {
                            let j = choose|j: int| 0 <= j < entries.len() && (#[trigger] entries[j]).0 == key;
                            assert(old(self).args@[j].0@ == entries[j].0);
                        }
                    }
                    lemma_assoc_push(entries, key, m);
                }
            },
        }
        proof {
            assert forall|i: int| 0 <= i < self.args@.len() implies (#[trigger] self.args@[i]).1.index < self.index.value by {
                if i < old(self).args@.len() && self.args@[i] == old(self).args@[i] {
                    assert(old(self).args@[i].1.index < old(self).index.value);
                }
            }
        }
        index
    }

    /// Adds `constraint` to the constraints of `arg`, which are then sorted by
    /// identifier, each once; says whether `arg` is declared. An undeclared
    /// argument changes nothing.
    pub fn add_constraint(&mut self, arg: &String, constraint: ClassId) -> (r: bool)
        requires
            old(self).wf(),
        ensures
            final(self).wf(),
            final(self).next_index() == old(self).next_index(),
            r == old(self).view().contains_key(arg@),
            !r ==> final(self).view() == old(self).view(),
            r ==> final(self).view().dom() == old(self).view().dom(),
            r ==> forall|k: Seq<char>|
                k != arg@ && #[trigger] old(self).view().contains_key(k) ==> final(self).view()[k]
                    == old(self).view()[k],
            r ==> final(self).view()[arg@].0 == old(self).view()[arg@].0,
            r ==> ids_increasing(final(self).view()[arg@].1),
            r ==> same_classes_with(
                final(self).view()[arg@].1,
                old(self).view()[arg@].1,
                constraint,
            ),
    {
        let ghost entries = arg_entries(self.args@);
        proof {
            lemma_assoc_contains(entries, arg@);
        }
        match find_arg(&self.args, arg.as_str()) {
            Some(i) => {
                proof {
                    lemma_assoc_index(entries, i as int);
                }
                let index = self.args[i].1.index;
                let classes = sorted_classes_with(&self.args[i].1.constraints, constraint);
                let ghost m = (index, classes@);
                let name = self.args[i].0.clone();
                self.args.set(i, (name, TypeArgInfo { index: index, constraints: classes }));
                proof {
                    assert(arg_entries(self.args@) =~= entries.update(i as int, (entries[i as int].0, m)));
                    lemma_assoc_update(entries, i as int, m);
                    assert(final(self).view() == assoc_map(entries).insert(arg@, m));
                    assert forall|j: int| 0 <= j < self.args@.len() implies (#[trigger] self.args@[j]).1.index < self.index.value by {
                        if j != i {
                            assert(self.args@[j] == old(self).args@[j]);
                        } else {
                            assert(old(self).args@[j].1.index < old(self).index.value);
                        }
                    }
                    assert(final(self).view().dom() =~= old(self).view().dom());
                }
                true
            },
            None => {
                proof {
                    if assoc_map(entries).contains_key(arg@) {
                        let j = choose|j: int| 0 <= j < entries.len() && (#[trigger] entries[j]).0 == arg@;
                        assert(self.args@[j].0@ == entries[j].0);
                    }
                }
                false
            },
        }
    }

    /// The position and the constraints of `arg`, where it is declared.
    pub fn resolve_arg(&self, arg: &String) -> (r: Option<TypeArgInfo>)
        requires
            self.wf(),
        ensures
            match r {
                Some(info) => self.view().contains_key(arg@) && info.model() == self.view()[arg@],
                None => !self.view().contains_key(arg@),
            },
    {
        let ghost entries = arg_entries(self.args@);
        proof {
            lemma_assoc_contains(entries, arg@);
        }
        match find_arg(&self.args, arg.as_str()) {
            Some(i) => {
                proof {
                    lemma_assoc_index(entries, i as int);
                }
                let index = self.args[i].1.index;
                let constraints = self.args[i].1.constraints.clone();
                assert(constraints@ =~= self.args@[i as int].1.constraints@);
                Some(TypeArgInfo { index: index, constraints: constraints })
            },
            None => {
                proof {
                    if assoc_map(entries).contains_key(arg@) {
                        let j = choose|j: int| 0 <= j < entries.len() && (#[trigger] entries[j]).0 == arg@;
                        assert(self.args@[j].0@ == entries[j].0);
                    }
                }
                None
            },
        }
    }

    /// Whether `arg` is declared.
    pub fn contains(&self, arg: &str) -> (r: bool)
        ensures
            r == self.view().contains_key(arg@),
    {
        let ghost entries = arg_entries(self.args@);
        proof {
            lemma_assoc_contains(entries, arg@);
        }
        match find_arg(&self.args, arg) {
            Some(i) => {
                assert(entries[i as int].0 == arg@);
                true
            },
            None => {
                proof {
                    if assoc_map(entries).contains_key(arg@) {
                        let j = choose|j: int| 0 <= j < entries.len() && (#[trigger] entries[j]).0 == arg@;
                        assert(self.args@[j].0@ == entries[j].0);
                    }
                }
                false
            },
        }
    }
}

/// Two different type arguments never share a position.
pub proof fn lemma_distinct_positions(r: TypeArgResolver, a: Seq<char>, b: Seq<char>)
    requires
        r.wf(),
        r.view().contains_key(a),
        r.view().contains_key(b),
        a != b,
    ensures
        r.view()[a].0 != r.view()[b].0,
        r.view()[a].0 < r.next_index(),
{
    let e = arg_entries(r.args@);
    lemma_assoc_contains(e, a);
    lemma_assoc_contains(e, b);
    let i = choose|i: int| 0 <= i < e.len() && (#[trigger] e[i]).0 == a;
    let j = choose|j: int| 0 <= j < e.len() && (#[trigger] e[j]).0 == b;
    lemma_assoc_index(e, i);
    lemma_assoc_index(e, j);
    assert(r.args@[i].1.index != r.args@[j].1.index);
    assert(r.args@[i].1.index < r.index.value);
}

} // verus!
