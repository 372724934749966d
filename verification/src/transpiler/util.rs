use crate::util::decimal;
use crate::util::decimal_string;
use crate::util::lemma_decimal_injective;
use vstd::prelude::*;

verus! {

/// `n` spaces, none where `n` is not positive.
pub open spec fn spaces(n: int) -> Seq<char> {
    Seq::new(if n > 0 { n as nat } else { 0 }, |_i: int| ' ')
}

/// The indentation of generated code, in spaces.
#[derive(Debug)]
pub struct Indent {
    indent: usize,
}

impl Indent {
    /// The number of spaces.
    pub closed spec fn level(&self) -> int {
        self.indent as int
    }

    /// The indentation as text.
    pub open spec fn text(&self) -> Seq<char> {
        spaces(self.level())
    }

    pub fn new() -> (r: Indent)
        ensures
            r.level() == 0,
    {
        Indent { indent: 0 }
    }

    /// One level deeper: four more spaces.
    pub fn inc(&mut self)
        requires
            old(self).level() + 4 <= usize::MAX,
        ensures
            final(self).level() == old(self).level() + 4,
    {
        self.indent = self.indent + 4;
    }

    /// One level shallower: four spaces fewer.
    pub fn dec(&mut self)
        requires
            old(self).level() >= 4,
        ensures
            final(self).level() == old(self).level() - 4,
    {
        self.indent = self.indent - 4;
    }

    /// The number of spaces is never negative nor beyond a machine word.
    pub proof fn lemma_level_range(&self)
        ensures
            0 <= self.level() <= usize::MAX,
    {
    }

    /// The indentation as text: as many spaces as its level.
    pub fn to_string(&self) -> (r: String)
        ensures
            r@ == self.text(),
    {
        let mut s = String::new();
        let mut i: usize = 0;
        while i < self.indent
            invariant
                i <= self.indent,
                s@ == spaces(i as int),
            decreases self.indent - i,
        {
            s.append(" ");
            proof {
                reveal_strlit(" ");
            }
            i += 1;
            assert(s@ =~= spaces(i as int));
        }
        s
    }
}

/// The name with each dot replaced by an underscore.
pub open spec fn module_name_of(name: Seq<char>) -> Seq<char> {
    name.map_values(|c: char| if c == '.' { '_' } else { c })
}

/// A module name in the generated code has no dot, is as long as the name
/// it came from, and stays the same when converted again.
pub proof fn lemma_module_name_of(name: Seq<char>)
    ensures
        !module_name_of(name).contains('.'),
        module_name_of(name).len() == name.len(),
        module_name_of(module_name_of(name)) == module_name_of(name),
        forall|i: int| 0 <= i < name.len() && name[i] != '.' ==> #[trigger] module_name_of(name)[i] == name[i],
        forall|i: int| 0 <= i < name.len() && name[i] == '.' ==> #[trigger] module_name_of(name)[i] == '_',
{
    let m = module_name_of(name);
    assert(!m.contains('.')) by {
        if m.contains('.') {
            let i = choose|i: int| 0 <= i < m.len() && m[i] == '.';
            assert(m[i] == (if name[i] == '.' { '_' } else { name[i] }));
        }
    }
    assert(module_name_of(m) =~= m);
}

/// The name of a module in the generated code: dots become underscores.
pub fn get_module_name(name: &str) -> (r: String)
    ensures
        r@ == module_name_of(name@),
{
    let len = name.unicode_len();
    let mut s = String::new();
    let mut i: usize = 0;
    while i < len
        invariant
            len == name@.len(),
            i <= len,
            s@ == module_name_of(name@.subrange(0, i as int)),
        decreases len - i,
    {
        let c = name.get_char(i);
        if c == '.' {
            s.append("_");
            proof {
                reveal_strlit("_");
            }
        } else {
            s.append(name.substring_char(i, i + 1));
        }
        assert(name@.subrange(0, i + 1) =~= name@.subrange(0, i as int).push(c));
        i += 1;
        assert(s@ =~= module_name_of(name@.subrange(0, i as int)));
    }
    assert(name@.subrange(0, len as int) =~= name@);
    s
}

/// The name of the argument at `index`: `arg` and the index in decimal.
pub open spec fn arg_name_of(index: nat) -> Seq<char> {
    "arg"@ + decimal(index)
}

/// The name of the argument at `index` in the generated code.
pub fn arg_name(index: usize) -> (r: String)
    ensures
        r@ == arg_name_of(index as nat),
{
    let mut s = String::from_str("arg");
    let digits = decimal_string(index);
    s.append(digits.as_str());
    s
}

/// Different positions give different argument names.
pub proof fn lemma_arg_name_injective(a: nat, b: nat)
    requires
        arg_name_of(a) == arg_name_of(b),
    ensures
        a == b,
{
    let pa = "arg"@;
    assert(arg_name_of(a).subrange(pa.len() as int, arg_name_of(a).len() as int) =~= decimal(a));
    assert(arg_name_of(b).subrange(pa.len() as int, arg_name_of(b).len() as int) =~= decimal(b));
    lemma_decimal_injective(a, b);
}

} // verus!
