use crate::flow_graph::dfg::ValueId;
use crate::ir::expr::FunctionArgumentRef;
use crate::ir::function::FunctionId;
use crate::ir::pattern::PatternId;
use vstd::prelude::*;

verus! {

/// The functions whose bodies the compiler provides itself.
#[derive(Debug, Clone, Copy, PartialEq, Eq, Structural)]
pub enum BuiltinCallable {
    Show,
    PartialEq,
    PartialOrd,
    Ord,
}

/// What an environment belongs to: a function of the program or a builtin.
#[derive(Debug, Clone, Copy, PartialEq, Eq, Structural)]
pub enum CallableKind {
    FunctionId(FunctionId),
    Builtin(BuiltinCallable),
}

/// The values of the variables and arguments seen in a block; a nested block
/// sees those of its enclosing blocks too.
#[derive(Debug)]
pub struct Environment<'a> {
    callable_kind: CallableKind,
    args: Vec<ValueId>,
    variables: Vec<(PatternId, ValueId)>,
    parent: Option<&'a Environment<'a>>,
}

impl<'a> Environment<'a> {
    /// What the environment belongs to.
    pub closed spec fn kind(&self) -> CallableKind {
        self.callable_kind
    }

    /// The values of the arguments, by position.
    pub closed spec fn arg_values(&self) -> Seq<ValueId> {
        self.args@
    }

    /// The value of `var` in this block alone: its latest binding here.
    pub closed spec fn local_value(&self, var: PatternId) -> Option<ValueId> {
        if exists|i: int| 0 <= i < self.variables@.len() && (#[trigger] self.variables@[i]).0 == var {
            let i = choose|i: int|
                0 <= i < self.variables@.len() && (#[trigger] self.variables@[i]).0 == var && forall|j: int|
                    i < j < self.variables@.len() ==> (#[trigger] self.variables@[j]).0 != var;
            Some(self.variables@[i].1)
        } else {
            None
        }
    }

    /// The value of `var` as the block sees it: its own binding, else that of
    /// the enclosing blocks, innermost first.
    pub closed spec fn lookup(&self, var: PatternId) -> Option<ValueId>
        decreases self,
    {
        match self.local_value(var) {
            Some(v) => Some(v),
            None => match self.parent {
                Some(p) => p.lookup(var),
                None => None,
            },
        }
    }

    /// The value of the argument `arg_ref` as the block sees it: that of the
    /// innermost enclosing function that `arg_ref` names; none where its
    /// position is out of range or no such function encloses the block.
    pub closed spec fn arg_lookup(&self, arg_ref: FunctionArgumentRef) -> Option<ValueId>
        decreases self,
    {
        if self.callable_kind == CallableKind::FunctionId(arg_ref.id) {
            if arg_ref.index < self.args@.len() {
                Some(self.args@[arg_ref.index as int])
            } else {
                None
            }
        } else {
            match self.parent {
                Some(p) => p.arg_lookup(arg_ref),
                None => None,
            }
        }
    }

    /// An environment of its own for `callable_kind`, with the values of its
    /// arguments and no variables.
    pub fn new(callable_kind: CallableKind, args: Vec<ValueId>) -> (r: Environment<'a>)
        ensures
            r.kind() == callable_kind,
            r.arg_values() == args@,
            forall|var: PatternId| r.lookup(var) is None,
            forall|arg_ref: FunctionArgumentRef| #[trigger] r.arg_lookup(arg_ref) == (
                if callable_kind == CallableKind::FunctionId(arg_ref.id) && arg_ref.index < args@.len() {
                    Some(args@[arg_ref.index as int])
                } else {
                    None
                }),
    {
        let r = Environment { callable_kind: callable_kind, args: args, variables: Vec::new(), parent: None };
        assert forall|var: PatternId| r.lookup(var) is None by {
            assert(r.local_value(var) is None);
        }
        r
    }

    /// Binds `var` to `value` in this block.
    pub fn add(&mut self, var: PatternId, value: ValueId)
        ensures
            final(self).kind() == old(self).kind(),
            final(self).arg_values() == old(self).arg_values(),
            final(self).lookup(var) == Some(value),
            forall|other: PatternId| other != var ==> final(self).lookup(other) == old(self).lookup(other),
            forall|arg_ref: FunctionArgumentRef| final(self).arg_lookup(arg_ref) == old(self).arg_lookup(arg_ref),
    {
        let ghost before = self.variables@;
        self.variables.push((var, value));
        proof {
            let n = before.len() as int;
            assert(self.variables@[n].0 == var);
            assert(self.local_value(var) == Some(value)) by {
                let i = choose|i: int|
                    0 <= i < self.variables@.len() && (#[trigger] self.variables@[i]).0 == var && forall|j: int|
                        i < j < self.variables@.len() ==> (#[trigger] self.variables@[j]).0 != var;
                assert(i == n);
            }
            assert forall|other: PatternId| other != var implies final(self).lookup(other) == old(self).lookup(other) by {
                assert(self.local_value(other) == old(self).local_value(other)) by {
                    if exists|i: int| 0 <= i < before.len() && (#[trigger] before[i]).0 == other {
                        let i = choose|i: int| 0 <= i < before.len() && (#[trigger] before[i]).0 == other;
                        assert(self.variables@[i] == before[i]);
                        let a = choose|i: int|
                            0 <= i < self.variables@.len() && (#[trigger] self.variables@[i]).0 == other && forall|j: int|
                                i < j < self.variables@.len() ==> (#[trigger] self.variables@[j]).0 != other;
                        let b = choose|i: int|
                            0 <= i < before.len() && (#[trigger] before[i]).0 == other && forall|j: int|
                                i < j < before.len() ==> (#[trigger] before[j]).0 != other;
                        assert(exists|i: int|
                            0 <= i < before.len() && (#[trigger] before[i]).0 == other && forall|j: int|
                                i < j < before.len() ==> (#[trigger] before[j]).0 != other) by {
                            lemma_last_occurrence(before, other, i);
                        }
                        assert(self.variables@[b] == before[b]);
                        assert forall|j: int| b < j < self.variables@.len() implies (#[trigger] self.variables@[j]).0 != other by {
                            if j < n {
                                assert(self.variables@[j] == before[j]);
                            }
                        }
                        if a < b {
                            assert(self.variables@[b].0 == other);
                        } else if b < a {
                            assert(a < n);
                            assert(self.variables@[a] == before[a]);
                        }
                    } else {
                        assert forall|i: int| 0 <= i < self.variables@.len() implies (#[trigger] self.variables@[i]).0 != other by {
                            if i < n {
                                assert(self.variables@[i] == before[i]);
                            }
                        }
                    }
                }
            }
        }
    }

    /// The value of `var` as the block sees it.
    pub fn get_value(&self, var: &PatternId) -> (r: ValueId)
        requires
            self.lookup(*var) is Some,
        ensures
            Some(r) == self.lookup(*var),
        decreases self,
    {
        let mut i: usize = self.variables.len();
        while i > 0
            invariant
                i <= self.variables@.len(),
                forall|j: int| i <= j < self.variables@.len() ==> (#[trigger] self.variables@[j]).0 != *var,
            decreases i,
        {
            i -= 1;
            if self.variables[i].0 == *var {
                proof {
                    lemma_last_is_chosen(self, *var, i as int);
                }
                return self.variables[i].1;
            }
        }
        assert(self.local_value(*var) is None);
        match self.parent {
            Some(parent) => parent.get_value(var),
            None => {
                assert(false);
                self.args[0]
            },
        }
    }

    /// An environment for a block nested in `parent`: the same function and
    /// arguments, and no variables of its own.
    pub fn block_child(parent: &'a Environment<'a>) -> (r: Environment<'a>)
        ensures
            r.kind() == parent.kind(),
            r.arg_values() == parent.arg_values(),
            forall|var: PatternId| r.lookup(var) == parent.lookup(var),
            forall|arg_ref: FunctionArgumentRef| r.arg_lookup(arg_ref) == parent.arg_lookup(arg_ref),
    {
        let args = parent.args.clone();
        assert(args@ =~= parent.args@);
        let r = Environment {
            callable_kind: parent.callable_kind,
            args: args,
            variables: Vec::new(),
            parent: Some(parent),
        };
        assert forall|var: PatternId| r.lookup(var) == parent.lookup(var) by {
            assert(r.local_value(var) is None);
        }
        r
    }

    /// The value of the argument `arg_ref` as the block sees it.
    pub fn get_arg(&self, arg_ref: &FunctionArgumentRef) -> (r: ValueId)
        requires
            self.arg_lookup(*arg_ref) is Some,
        ensures
            Some(r) == self.arg_lookup(*arg_ref),
        decreases self,
    {
        if let CallableKind::FunctionId(id) = self.callable_kind {
            if id == arg_ref.id {
                return self.args[arg_ref.index];
            }
        }
        match self.parent {
            Some(parent) => parent.get_arg(arg_ref),
            None => {
                assert(false);
                self.args[0]
            },
        }
    }

    /// The value of the argument at `index` of this environment's own function.
    pub fn get_arg_by_index(&self, index: usize) -> (r: ValueId)
        requires
            index < self.arg_values().len(),
        ensures
            r == self.arg_values()[index as int],
    {
        self.args[index]
    }
}

/// Where `k` occurs in `s`, it has a last occurrence.
proof fn lemma_last_occurrence(s: Seq<(PatternId, ValueId)>, k: PatternId, i: int)
    requires
        0 <= i < s.len(),
        s[i].0 == k,
    ensures
        exists|a: int|
            0 <= a < s.len() && (#[trigger] s[a]).0 == k && forall|j: int| a < j < s.len() ==> (#[trigger] s[j]).0 != k,
    decreases s.len() - i,
{
    if forall|j: int| i < j < s.len() ==> (#[trigger] s[j]).0 != k {
        assert(s[i].0 == k);
    } else {
        let j = choose|j: int| i < j < s.len() && (#[trigger] s[j]).0 != k == false;
        lemma_last_occurrence(s, k, j);
    }
}

/// A binding with no later binding of the same variable is the one seen.
proof fn lemma_last_is_chosen<'a>(env: &Environment<'a>, var: PatternId, i: int)
    requires
        0 <= i < env.variables@.len(),
        env.variables@[i].0 == var,
        forall|j: int| i < j < env.variables@.len() ==> (#[trigger] env.variables@[j]).0 != var,
    ensures
        env.local_value(var) == Some(env.variables@[i].1),
{
    let a = choose|a: int|
        0 <= a < env.variables@.len() && (#[trigger] env.variables@[a]).0 == var && forall|j: int|
            a < j < env.variables@.len() ==> (#[trigger] env.variables@[j]).0 != var;
    if a < i {
        assert(env.variables@[i].0 == var);
    } else if i < a {
        assert(env.variables@[a].0 == var);
    }
}

} // verus!
