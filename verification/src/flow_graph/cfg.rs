use crate::ir::expr::ExprId;
use crate::ir::pattern::PatternId;
use crate::util::Counter;
use crate::util::decimal;
use crate::util::decimal_string;
use vstd::prelude::*;

verus! {

/// Identifies a basic block of a control flow graph.
#[derive(Debug, Clone, Copy, PartialEq, Eq, PartialOrd, Ord, Structural)]
pub struct BlockId {
    pub id: usize,
}

impl BlockId {
    /// The block as its `Display` writes it: `#` and its number.
    pub fn to_string(&self) -> (r: String)
        ensures
            r@ == "#"@ + decimal(self.id as nat),
    {
        let mut s = String::from_str("#");
        let digits = decimal_string(self.id);
        s.append(digits.as_str());
        s
    }
}

impl BlockId {
    /// The block with the given number.
    pub fn from(id: usize) -> (r: BlockId)
        ensures
            r.id == id,
    {
        BlockId { id: id }
    }
}

/// What a basic block holds, in order of evaluation.
#[derive(Debug, Clone, Copy, PartialEq, Eq, Structural)]
pub enum BlockElement {
    Expr(ExprId),
    Pattern(PatternId),
    Terminator(ExprId),
}

/// How control passes from one block to another.
#[derive(Debug, Clone, Copy, PartialEq, Eq, Structural)]
pub enum Edge {
    If(bool),
    Case(usize),
    Jump,
}

/// A straight run of expressions.
#[derive(Debug)]
pub struct BasicBlock {
    pub elements: Vec<BlockElement>,
}

impl BasicBlock {
    pub fn new() -> (r: BasicBlock)
        ensures
            r.elements@.len() == 0,
    {
        BasicBlock { elements: Vec::new() }
    }
}

/// The control flow graph of one function: blocks numbered from zero in the
/// order of their creation, and the edges between them in the order they
/// were added.
#[derive(Debug)]
pub struct ControlFlowGraph {
    name: String,
    next_block: Counter,
    blocks: Vec<BasicBlock>,
    edges: Vec<(BlockId, BlockId, Edge)>,
}

impl ControlFlowGraph {
    /// The elements of each block, by block number.
    pub closed spec fn blocks(&self) -> Seq<Seq<BlockElement>> {
        Seq::new(self.blocks@.len(), |i: int| self.blocks@[i].elements@)
    }

    /// The edges, in the order they were added.
    pub closed spec fn edges(&self) -> Seq<(BlockId, BlockId, Edge)> {
        self.edges@
    }

    /// The name of the graph.
    pub closed spec fn name(&self) -> Seq<char> {
        self.name@
    }

    /// The number of the next block follows the blocks made so far.
    pub closed spec fn wf(&self) -> bool {
        self.next_block.value == self.blocks@.len()
    }

    /// Whether the graph has a block under `id`.
    pub open spec fn has_block(&self, id: BlockId) -> bool {
        id.id < self.blocks().len()
    }

    pub fn new(name: String) -> (r: ControlFlowGraph)
        ensures
            r.wf(),
            r.name() == name@,
            r.blocks().len() == 0,
            r.edges().len() == 0,
    {
        ControlFlowGraph { name: name, next_block: Counter::new(), blocks: Vec::new(), edges: Vec::new() }
    }

    /// Appends `element` to the block `block_id`.
    fn push_element(&mut self, block_id: BlockId, element: BlockElement)
        requires
            old(self).wf(),
            old(self).has_block(block_id),
        ensures
            final(self).wf(),
            final(self).name() == old(self).name(),
            final(self).edges() == old(self).edges(),
            final(self).blocks() == old(self).blocks().update(
                block_id.id as int,
                old(self).blocks()[block_id.id as int].push(element),
            ),
    {
        let mut block = self.blocks.remove(block_id.id);
        block.elements.push(element);
        self.blocks.insert(block_id.id, block);
        assert(self.blocks() =~= old(self).blocks().update(
            block_id.id as int,
            old(self).blocks()[block_id.id as int].push(element),
        ));
    }

    /// Appends the expression `expr_id` to the block `block_id`.
    pub fn add_expr_to_block(&mut self, block_id: BlockId, expr_id: ExprId)
        requires
            old(self).wf(),
            old(self).has_block(block_id),
        ensures
            final(self).wf(),
            final(self).name() == old(self).name(),
            final(self).edges() == old(self).edges(),
            final(self).blocks() == old(self).blocks().update(
                block_id.id as int,
                old(self).blocks()[block_id.id as int].push(BlockElement::Expr(expr_id)),
            ),
    {
        self.push_element(block_id, BlockElement::Expr(expr_id));
    }

    /// Ends the block `block_id` with the expression `expr_id`.
    pub fn add_terminator_to_block(&mut self, block_id: BlockId, expr_id: ExprId)
        requires
            old(self).wf(),
            old(self).has_block(block_id),
        ensures
            final(self).wf(),
            final(self).name() == old(self).name(),
            final(self).edges() == old(self).edges(),
            final(self).blocks() == old(self).blocks().update(
                block_id.id as int,
                old(self).blocks()[block_id.id as int].push(BlockElement::Terminator(expr_id)),
            ),
    {
        self.push_element(block_id, BlockElement::Terminator(expr_id));
    }

    /// Adds an edge from `from` to `to`.
    pub fn add_edge(&mut self, from: BlockId, to: BlockId, edge: Edge)
        ensures
            final(self).wf() == old(self).wf(),
            final(self).name() == old(self).name(),
            final(self).blocks() == old(self).blocks(),
            final(self).edges() == old(self).edges().push((from, to, edge)),
    {
        self.edges.push((from, to, edge));
    }

    /// Makes a new empty block, numbered after the existing ones.
    pub fn create_block(&mut self) -> (r: BlockId)
        requires
            old(self).wf(),
            old(self).blocks().len() < usize::MAX,
        ensures
            final(self).wf(),
            r.id == old(self).blocks().len(),
            final(self).name() == old(self).name(),
            final(self).edges() == old(self).edges(),
            final(self).blocks() == old(self).blocks().push(Seq::empty()),
    {
        let block_id = BlockId::from(self.next_block.next());
        let block = BasicBlock::new();
        assert(block.elements@ =~= Seq::<BlockElement>::empty());
        self.blocks.push(block);
        assert(self.blocks() =~= old(self).blocks().push(Seq::empty()));
        block_id
    }
}

} // verus!
