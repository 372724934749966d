use crate::mir::data::TypeDefId;
use vstd::prelude::*;

verus! {

/// A type of the middle intermediate representation: a named type
/// definition or a function.
#[derive(Debug)]
pub enum Type {
    Named(TypeDefId),
    Function(Box<Type>, Box<Type>),
}

impl Type {
    /// The number of arguments of a curried function type.
    pub open spec fn arg_count(self) -> nat
        decreases self,
    {
        match self {
            Type::Function(_, to) => 1 + to.arg_count(),
            Type::Named(..) => 0,
        }
    }

    /// The argument types of a curried function type, outermost first.
    pub open spec fn args(self) -> Seq<Type>
        decreases self,
    {
        match self {
            Type::Function(from, to) => seq![*from] + to.args(),
            Type::Named(..) => Seq::empty(),
        }
    }

    /// What is left of the type after `arg_count` arguments were applied.
    pub open spec fn result_type(self, arg_count: nat) -> Type
        decreases self,
    {
        match self {
            Type::Function(_, to) => if arg_count == 1 {
                *to
            } else if arg_count == 0 {
                self
            } else {
                to.result_type((arg_count - 1) as nat)
            },
            Type::Named(..) => self,
        }
    }

    /// A copy of the type.
    pub fn clone_type(&self) -> (r: Type)
        ensures
            r == *self,
        decreases self,
    {
        match self {
            Type::Named(id) => Type::Named(*id),
            Type::Function(from, to) => Type::Function(
                Box::new(from.clone_type()),
                Box::new(to.clone_type()),
            ),
        }
    }

    /// Whether the two types are the same.
    pub fn equals(&self, other: &Type) -> (r: bool)
        ensures
            r == (*self == *other),
        decreases self,
    {
        match (self, other) {
            (Type::Named(a), Type::Named(b)) => a.id == b.id,
            (Type::Function(f1, t1), Type::Function(f2, t2)) => f1.equals(f2) && t1.equals(t2),
            _ => false,
        }
    }

    /// Appends the argument types of a curried function type to `args`.
    pub fn get_args(&self, args: &mut Vec<Type>)
        ensures
            final(args)@ == old(args)@ + self.args(),
        decreases self,
    {
        match self {
            Type::Named(..) => {
                assert(args@ =~= args@ + self.args());
            },
            Type::Function(from, to) => {
                let ghost before = args@;
                args.push(from.clone_type());
                to.get_args(args);
                assert(args@ =~= before + self.args());
            },
        }
    }

    /// What is left of the type after `arg_count` arguments were applied.
    pub fn get_result_type(&self, arg_count: usize) -> (r: Type)
        ensures
            r == self.result_type(arg_count as nat),
        decreases self,
    {
        match self {
            Type::Named(..) => self.clone_type(),
            Type::Function(_, to) => {
                if arg_count == 1 {
                    to.clone_type()
                } else {
                    if arg_count == 0 {
                        self.clone_type()
                    } else {
                        to.get_result_type(arg_count - 1)
                    }
                }
            },
        }
    }

    /// The type definition of a named type.
    pub fn get_typedef_id(&self) -> (r: TypeDefId)
        requires
            self is Named,
        ensures
            r == self->Named_0,
    {
        match self {
            Type::Named(id) => *id,
            Type::Function(_, _) => {
                proof {
                    assert(false);
                }
                TypeDefId { id: 0 }
            },
        }
    }
}

/// A curried function type has as many argument types as its argument count.
pub proof fn lemma_args_len(t: Type)
    ensures
        t.args().len() == t.arg_count(),
    decreases t,
{
    if let Type::Function(_, to) = t {
        lemma_args_len(*to);
    }
}

/// Once all its arguments are applied, what is left of a type is a named type.
pub proof fn lemma_result_type_named(t: Type)
    ensures
        t.result_type(t.arg_count()) is Named,
    decreases t,
{
    if let Type::Function(_, to) = t {
        lemma_result_type_named(*to);
    }
}

/// Applying arguments one at a time: what is left after `n + 1` arguments is
/// what is left after one argument, then `n` more.
pub proof fn lemma_result_type_step(t: Type, n: nat)
    requires
        t is Function,
        n >= 1,
    ensures
        t.result_type(n + 1) == t.result_type(1).result_type(n),
{
}

/// The function type that takes `args`, outermost first, and leaves `result`.
pub open spec fn curried(args: Seq<Type>, result: Type) -> Type
    decreases args.len(),
{
    if args.len() == 0 {
        result
    } else {
        Type::Function(Box::new(args[0]), Box::new(curried(args.drop_first(), result)))
    }
}

/// Splitting a type into its arguments and what is left gives it back: with
/// no argument applied nothing is taken off; for `m` up to its number of
/// arguments, the first `m` arguments around what is left after `m` make the
/// type again; and applying more arguments than it takes leaves what is left
/// after all of them.
pub proof fn lemma_result_type_round_trip(t: Type, m: nat)
    ensures
        t.result_type(0) == t,
        m <= t.arg_count() ==> curried(t.args().take(m as int), t.result_type(m)) == t,
        m > t.arg_count() ==> t.result_type(m) == t.result_type(t.arg_count()),
    decreases t,
{
    lemma_args_len(t);
    match t {
        Type::Function(from, to) => {
            if m >= 1 {
                lemma_result_type_round_trip(*to, (m - 1) as nat);
                lemma_args_len(*to);
                if m <= t.arg_count() {
                    let rest = to.args().take(m - 1);
                    assert(t.args().take(m as int) =~= seq![*from] + rest);
                    assert((seq![*from] + rest).drop_first() =~= rest);
                    assert((seq![*from] + rest)[0] == *from);
                    if m == 1 {
                        assert(to.result_type(0) == *to);
                    }
                } else {
                    if to.arg_count() == 0 {
                        assert(to.result_type((m - 1) as nat) == *to) by {
                            lemma_result_type_round_trip(*to, 0);
                            if (m - 1) as nat > 0 {
                                assert(!(*to is Function));
                            }
                        }
                    }
                }
            } else {
                assert(t.args().take(0) =~= Seq::<Type>::empty());
            }
        },
        Type::Named(..) => {
            if m == 0 {
                assert(t.args().take(0) =~= Seq::<Type>::empty());
            }
        },
    }
}

} // verus!
