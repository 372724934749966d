use crate::ir::expr::ExprId;
use crate::ir::pattern::PatternId;
use crate::util::Counter;
use crate::util::decimal;
use crate::util::decimal_string;
use vstd::prelude::*;

verus! {

/// Identifies a value of a data flow graph.
#[derive(Debug, Clone, Copy, PartialEq, Eq, PartialOrd, Ord, Structural)]
pub struct ValueId {
    pub id: usize,
}

impl ValueId {
    /// The value as its `Display` writes it: `#` and its number.
    pub fn to_string(&self) -> (r: String)
        ensures
            r@ == "#"@ + decimal(self.id as nat),
    {
        let mut s = String::from_str("#");
        let digits = decimal_string(self.id);
        s.append(digits.as_str());
        s
    }
}

impl ValueId {
    /// The value with the given number.
    pub fn from(id: usize) -> (r: ValueId)
        ensures
            r.id == id,
    {
        ValueId { id: id }
    }
}

/// How a value flows into another.
#[derive(Debug, Clone, Copy, PartialEq, Eq, Structural)]
pub enum Edge {
    If(bool),
    Case(usize),
    Jump,
    FnArg(usize),
    ListElement(usize),
    RecordField(usize),
    RecordUpdateSource,
}

/// Where a value comes from.
#[derive(Debug, Clone, Copy, PartialEq, Eq, Structural)]
pub enum ValueSource {
    Expr(ExprId),
    Arg(usize),
    Pattern(PatternId),
}

/// A value of the data flow graph: its identity, its source and the
/// expressions that use it.
#[derive(Debug)]
pub struct Value {
    pub id: ValueId,
    pub source: ValueSource,
    pub uses: Vec<ExprId>,
}

impl Value {
    /// A value that nothing uses yet.
    pub fn new(id: ValueId, source: ValueSource) -> (r: Value)
        ensures
            r.id == id,
            r.source == source,
            r.uses@.len() == 0,
    {
        Value { id: id, source: source, uses: Vec::new() }
    }
}

/// The data flow graph of one function: values numbered from zero in the
/// order of their creation, and the edges between them in the order they
/// were added.
#[derive(Debug)]
pub struct DataflowGraph {
    next_value: Counter,
    name: String,
    values: Vec<Value>,
    edges: Vec<(ValueId, ValueId, Edge)>,
}

impl DataflowGraph {
    /// The source of each value, by value number.
    pub closed spec fn sources(&self) -> Seq<ValueSource> {
        Seq::new(self.values@.len(), |i: int| self.values@[i].source)
    }

    /// The edges, in the order they were added.
    pub closed spec fn edges(&self) -> Seq<(ValueId, ValueId, Edge)> {
        self.edges@
    }

    /// The name of the graph.
    pub closed spec fn name(&self) -> Seq<char> {
        self.name@
    }

    /// Each value sits at its own number, and the next number follows them.
    pub closed spec fn wf(&self) -> bool {
        &&& self.next_value.value == self.values@.len()
        &&& forall|i: int| 0 <= i < self.values@.len() ==> (#[trigger] self.values@[i]).id.id == i
    }

    pub fn new(name: String) -> (r: DataflowGraph)
        ensures
            r.wf(),
            r.name() == name@,
            r.sources().len() == 0,
            r.edges().len() == 0,
    {
        DataflowGraph { next_value: Counter::new(), name: name, values: Vec::new(), edges: Vec::new() }
    }

    /// Makes a new value from `source`, numbered after the existing ones.
    pub fn create_value(&mut self, source: ValueSource) -> (r: ValueId)
        requires
            old(self).wf(),
            old(self).sources().len() < usize::MAX,
        ensures
            final(self).wf(),
            r.id == old(self).sources().len(),
            final(self).name() == old(self).name(),
            final(self).edges() == old(self).edges(),
            final(self).sources() == old(self).sources().push(source),
    {
        let value_id = ValueId::from(self.next_value.next());
        self.values.push(Value::new(value_id, source));
        assert(self.sources() =~= old(self).sources().push(source));
        value_id
    }

    /// Adds an edge from `from` to `to`.
    pub fn add_edge(&mut self, from: ValueId, to: ValueId, edge: Edge)
        ensures
            final(self).wf() == old(self).wf(),
            final(self).name() == old(self).name(),
            final(self).sources() == old(self).sources(),
            final(self).edges() == old(self).edges().push((from, to, edge)),
    {
        self.edges.push((from, to, edge));
    }
}

} // verus!
