use crate::ir::expr::FunctionArgumentRef;
use crate::ir::function::FunctionId;
use crate::ir::pattern::PatternId;
use vstd::prelude::*;

verus! {

/// The values that the interpreter sees in a block: those of the arguments of
/// the running function and of the variables bound so far; a nested block
/// sees those of its enclosing blocks too. The arguments of a closure start
/// with the values it captured.
#[derive(Debug)]
pub struct Environment<'a, V> {
    function_id: FunctionId,
    args: Vec<V>,
    variables: Vec<(PatternId, V)>,
    parent: Option<&'a Environment<'a, V>>,
    captured_arg_count: usize,
}

impl<'a, V: Clone> Environment<'a, V> {
    /// The running function.
    pub closed spec fn function(&self) -> FunctionId {
        self.function_id
    }

    /// The values of the arguments, the captured ones first.
    pub closed spec fn arg_values(&self) -> Seq<V> {
        self.args@
    }

    /// How many of the arguments were captured.
    pub closed spec fn captured_count(&self) -> usize {
        self.captured_arg_count
    }

    /// The value of `var` in this block alone: its latest binding here.
    pub closed spec fn local_value(&self, var: PatternId) -> Option<V> {
        if exists|i: int| 0 <= i < self.variables@.len() && (#[trigger] self.variables@[i]).0 == var {
            let i = choose|i: int|
                0 <= i < self.variables@.len() && (#[trigger] self.variables@[i]).0 == var && forall|j: int|
                    i < j < self.variables@.len() ==> (#[trigger] self.variables@[j]).0 != var;
            Some(self.variables@[i].1)
        } else {
            None
        }
    }

    /// The value of `var` as the block sees it: its own binding, else that of
    /// the enclosing blocks, innermost first.
    pub closed spec fn lookup(&self, var: PatternId) -> Option<V>
        decreases self,
    {
        match self.local_value(var) {
            Some(v) => Some(v),
            None => match self.parent {
                Some(p) => p.lookup(var),
                None => None,
            },
        }
    }

    /// The position among the arguments of an argument reference: captured
    /// arguments count from the start, the others after the captured ones.
    pub open spec fn arg_position(arg_ref: FunctionArgumentRef, captured_count: usize) -> int {
        if arg_ref.captured {
            arg_ref.index as int
        } else {
            arg_ref.index + captured_count
        }
    }

    /// The value of the argument `arg_ref` as the block sees it: that of the
    /// innermost enclosing function that `arg_ref` names; none where its
    /// position is out of range or no such function encloses the block.
    pub closed spec fn arg_lookup(&self, arg_ref: FunctionArgumentRef) -> Option<V>
        decreases self,
    {
        if self.function_id == arg_ref.id {
            let pos = Self::arg_position(arg_ref, self.captured_arg_count);
            if pos < self.args@.len() {
                Some(self.args@[pos])
            } else {
                None
            }
        } else {
            match self.parent {
                Some(p) => p.arg_lookup(arg_ref),
                None => None,
            }
        }
    }

    /// The environment of a call of `function_id` with the values `args`, of
    /// which the first `captured_arg_count` were captured.
    pub fn new(function_id: FunctionId, args: Vec<V>, captured_arg_count: usize) -> (r: Environment<'a, V>)
        ensures
            r.function() == function_id,
            r.arg_values() == args@,
            r.captured_count() == captured_arg_count,
            forall|var: PatternId| r.lookup(var) is None,
    {
        let r = Environment {
            function_id: function_id,
            args: args,
            variables: Vec::new(),
            parent: None,
            captured_arg_count: captured_arg_count,
        };
        assert forall|var: PatternId| r.lookup(var) is None by {
            assert(r.local_value(var) is None);
        }
        r
    }

    /// Binds `var` to `value` in this block.
    pub fn add(&mut self, var: PatternId, value: V)
        ensures
            final(self).function() == old(self).function(),
            final(self).arg_values() == old(self).arg_values(),
            final(self).captured_count() == old(self).captured_count(),
            final(self).lookup(var) == Some(value),
            forall|other: PatternId| other != var ==> final(self).lookup(other) == old(self).lookup(other),
            forall|arg_ref: FunctionArgumentRef| final(self).arg_lookup(arg_ref) == old(self).arg_lookup(arg_ref),
    {
        let ghost before = self.variables@;
        self.variables.push((var, value));
        proof {
            let n = before.len() as int;
            assert(self.variables@[n].0 == var);
            lemma_last_is_chosen(self, var, n);
            assert forall|other: PatternId| other != var implies final(self).lookup(other) == old(self).lookup(other) by {
                assert(self.local_value(other) == old(self).local_value(other)) by {
                    if exists|i: int| 0 <= i < before.len() && (#[trigger] before[i]).0 == other {
                        let i = choose|i: int| 0 <= i < before.len() && (#[trigger] before[i]).0 == other;
                        lemma_last_occurrence(before, other, i);
                        let b = choose|b: int|
                            0 <= b < before.len() && (#[trigger] before[b]).0 == other && forall|j: int|
                                b < j < before.len() ==> (#[trigger] before[j]).0 != other;
                        assert(self.variables@[b] == before[b]);
                        assert forall|j: int| b < j < self.variables@.len() implies (#[trigger] self.variables@[j]).0 != other by {
                            if j < n {
                                assert(self.variables@[j] == before[j]);
                            }
                        }
                        lemma_last_is_chosen(self, other, b);
                        lemma_last_is_chosen(old(self), other, b);
                    } else {
                        assert forall|i: int| 0 <= i < self.variables@.len() implies (#[trigger] self.variables@[i]).0 != other by {
                            if i < n {
                                assert(self.variables@[i] == before[i]);
                            }
                        }
                    }
                }
            }
        }
    }

    /// The value of `var` as the block sees it, cloned.
    pub fn get_value(&self, var: &PatternId) -> (r: V)
        requires
            self.lookup(*var) is Some,
        ensures
            cloned::<V>(self.lookup(*var)->Some_0, r),
        decreases self,
    {
        let mut i: usize = self.variables.len();
        while i > 0
            invariant
                i <= self.variables@.len(),
                forall|j: int| i <= j < self.variables@.len() ==> (#[trigger] self.variables@[j]).0 != *var,
            decreases i,
        {
            i -= 1;
            if self.variables[i].0 == *var {
                proof {
                    lemma_last_is_chosen(self, *var, i as int);
                }
                return self.variables[i].1.clone();
            }
        }
        assert(self.local_value(*var) is None);
        match self.parent {
            Some(parent) => parent.get_value(var),
            None => {
                assert(false);
                self.args[0].clone()
            },
        }
    }

    /// An environment for a block nested in `parent`: the same function and
    /// arguments, and no variables of its own.
    pub fn block_child(parent: &'a Environment<'a, V>) -> (r: Environment<'a, V>)
        ensures
            r.function() == parent.function(),
            r.arg_values().len() == parent.arg_values().len(),
            forall|i: int| 0 <= i < r.arg_values().len() ==> cloned::<V>(parent.arg_values()[i], #[trigger] r.arg_values()[i]),
            r.captured_count() == parent.captured_count(),
            forall|var: PatternId| r.lookup(var) == parent.lookup(var),
    {
        let args = parent.args.clone();
        let r = Environment {
            function_id: parent.function_id,
            args: args,
            variables: Vec::new(),
            parent: Some(parent),
            captured_arg_count: parent.captured_arg_count,
        };
        assert forall|var: PatternId| r.lookup(var) == parent.lookup(var) by {
            assert(r.local_value(var) is None);
        }
        r
    }

    /// The value of the argument `arg_ref` as the block sees it, cloned.
    pub fn get_arg(&self, arg_ref: &FunctionArgumentRef) -> (r: V)
        requires
            self.arg_lookup(*arg_ref) is Some,
        ensures
            cloned::<V>(self.arg_lookup(*arg_ref)->Some_0, r),
        decreases self,
    {
        if self.function_id == arg_ref.id {
            let n = self.args.len();
            assert(Self::arg_position(*arg_ref, self.captured_arg_count) < n);
            let index = if arg_ref.captured {
                arg_ref.index
            } else {
                arg_ref.index + self.captured_arg_count
            };
            return self.args[index].clone();
        }
        match self.parent {
            Some(parent) => parent.get_arg(arg_ref),
            None => {
                assert(false);
                self.args[0].clone()
            },
        }
    }

    /// The value of the argument at `index`, cloned.
    pub fn get_arg_by_index(&self, index: usize) -> (r: V)
        requires
            index < self.arg_values().len(),
        ensures
            cloned::<V>(self.arg_values()[index as int], r),
    {
        self.args[index].clone()
    }
}

/// Where `k` occurs in `s`, it has a last occurrence.
proof fn lemma_last_occurrence<V>(s: Seq<(PatternId, V)>, k: PatternId, i: int)
    requires
        0 <= i < s.len(),
        s[i].0 == k,
    ensures
        exists|a: int|
            0 <= a < s.len() && (#[trigger] s[a]).0 == k && forall|j: int| a < j < s.len() ==> (#[trigger] s[j]).0 != k,
    decreases s.len() - i,
{
    if forall|j: int| i < j < s.len() ==> (#[trigger] s[j]).0 != k {
        assert(s[i].0 == k);
    } else {
        let j = choose|j: int| i < j < s.len() && (#[trigger] s[j]).0 != k == false;
        lemma_last_occurrence(s, k, j);
    }
}

/// A binding with no later binding of the same variable is the one seen.
proof fn lemma_last_is_chosen<'a, V: Clone>(env: &Environment<'a, V>, var: PatternId, i: int)
    requires
        0 <= i < env.variables@.len(),
        env.variables@[i].0 == var,
        forall|j: int| i < j < env.variables@.len() ==> (#[trigger] env.variables@[j]).0 != var,
    ensures
        env.local_value(var) == Some(env.variables@[i].1),
{
    let a = choose|a: int|
        0 <= a < env.variables@.len() && (#[trigger] env.variables@[a]).0 == var && forall|j: int|
            a < j < env.variables@.len() ==> (#[trigger] env.variables@[j]).0 != var;
    if a < i {
        assert(env.variables@[i].0 == var);
    } else if i < a {
        assert(env.variables@[a].0 == var);
    }
}

} // verus!
