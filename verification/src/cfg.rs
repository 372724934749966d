use crate::flow_graph::cfg::BlockElement;
use crate::flow_graph::cfg::BlockId;
use crate::ir::expr::Case;
use crate::ir::expr::Expr;
use crate::ir::expr::ExprId;
use crate::ir::expr::RecordFieldValueExpr;
use crate::ir::expr::RecordUpdateInfo;
use crate::ir::program::Program;
use crate::util::Counter;
use vstd::prelude::*;

verus! {

/// A straight run of expressions, with the blocks that control comes from.
#[derive(Debug)]
pub struct BasicBlock {
    pub id: BlockId,
    pub sources: Vec<BlockId>,
    pub elements: Vec<BlockElement>,
}

impl BasicBlock {
    /// An empty block with no source.
    pub fn new(id: BlockId) -> (r: BasicBlock)
        ensures
            r.id == id,
            r.sources@.len() == 0,
            r.elements@.len() == 0,
    {
        BasicBlock { id: id, sources: Vec::new(), elements: Vec::new() }
    }
}

/// The blocks of a graph, by number: their elements and their sources.
pub type BlockModels = Seq<(Seq<BlockElement>, Seq<BlockId>)>;

/// `g` with `element` appended to the block `b`.
pub open spec fn add_element(g: BlockModels, b: BlockId, element: BlockElement) -> BlockModels {
    if b.id < g.len() {
        g.update(b.id as int, (g[b.id as int].0.push(element), g[b.id as int].1))
    } else {
        g
    }
}

/// `g` with `source` added to the sources of the block `b`.
pub open spec fn add_source_to(g: BlockModels, b: BlockId, source: BlockId) -> BlockModels {
    if b.id < g.len() {
        g.update(b.id as int, (g[b.id as int].0, g[b.id as int].1.push(source)))
    } else {
        g
    }
}

/// `g` with a new empty block after the others.
pub open spec fn new_block(g: BlockModels) -> BlockModels {
    g.push((Seq::empty(), Seq::empty()))
}

/// The expressions that give the fields their values.
pub open spec fn field_ids(items: Seq<RecordFieldValueExpr>) -> Seq<ExprId> {
    Seq::new(items.len(), |i: int| items[i].expr_id)
}

/// The bodies of the arms of a case expression.
pub open spec fn case_bodies(cases: Seq<Case>) -> Seq<ExprId> {
    Seq::new(cases.len(), |i: int| cases[i].body)
}

/// The expressions of the new field values of a record update, in order.
pub open spec fn update_ids(updates: Seq<RecordUpdateInfo>) -> Seq<ExprId>
    decreases updates.len(),
{
    if updates.len() == 0 {
        Seq::empty()
    } else {
        update_ids(updates.drop_last()) + field_ids(updates.last().items@)
    }
}

/// The parts of an expression that the graph goes through, in order.
pub open spec fn parts(e: Expr) -> Seq<ExprId> {
    match e {
        Expr::ArgRef(..) => Seq::empty(),
        Expr::Bind(_, rhs) => seq![rhs],
        Expr::CaseOf(x, cases) => seq![x] + case_bodies(cases@),
        Expr::ClassFunctionCall(_, args) => args@,
        Expr::DynamicFunctionCall(_, args) => args@,
        Expr::Do(items) => items@,
        Expr::ExprValue(..) => Seq::empty(),
        Expr::FieldAccess(_, receiver) => seq![receiver],
        Expr::FloatLiteral(..) => Seq::empty(),
        Expr::Formatter(_, args) => args@,
        Expr::If(c, t, f) => seq![c, t, f],
        Expr::IntegerLiteral(..) => Seq::empty(),
        Expr::List(items) => items@,
        Expr::StaticFunctionCall(_, args) => args@,
        Expr::StringLiteral(..) => Seq::empty(),
        Expr::RecordInitialization(_, items) => field_ids(items@),
        Expr::RecordUpdate(receiver, updates) => seq![receiver] + update_ids(updates@),
        Expr::Tuple(items) => items@,
        Expr::TupleFieldAccess(_, receiver) => seq![receiver],
    }
}

/// Whether each of the expressions has an identifier below `bound`.
pub open spec fn all_below(ids: Seq<ExprId>, bound: usize) -> bool {
    forall|i: int| 0 <= i < ids.len() ==> (#[trigger] ids[i]).id < bound
}

/// Whether each expression of the program is built from expressions of the
/// program made before it, as the builder and the parser make them.
pub open spec fn well_founded(p: Program) -> bool {
    forall|id: ExprId| #[trigger] p.has_expr(id) ==> {
        &&& all_below(parts(p.expr(id)), id.id)
        &&& forall|i: int| 0 <= i < parts(p.expr(id)).len() ==> p.has_expr(#[trigger] parts(p.expr(id))[i])
    }
}

/// The blocks after the expression `e` was added to the graph `g`, starting
/// in the block `b`, and the block where control is once it is evaluated:
/// its parts go first, in order, then the expression itself. A `do` block
/// opens a new block after the current one and ends it with a terminator; an
/// `if` evaluates its branches in new blocks after the condition's and joins
/// them in a new block; a `case` evaluates each arm in a new block after the
/// scrutinee's and joins them all in a new block; the new field values of a
/// record update each go in a new block after the previous one.
pub open spec fn run(p: Program, e: ExprId, g: BlockModels, b: BlockId) -> (BlockModels, BlockId)
    decreases e.id, 1nat, 0nat,
{
    let expr = p.expr(e);
    if !all_below(parts(expr), e.id) {
        (g, b)
    } else {
        match expr {
            Expr::Do(items) => {
                let g1 = add_element(g, b, BlockElement::Expr(e));
                let next = BlockId { id: g1.len() as usize };
                let g2 = add_source_to(new_block(g1), next, b);
                let r = run_seq(p, items@, e.id, g2, next);
                (add_element(r.0, r.1, BlockElement::Terminator(e)), r.1)
            },
            Expr::If(c, t, f) => {
                let r1 = run(p, c, g, b);
                let r2 = run_block(p, t, Some(r1.1), r1.0);
                let r3 = run_block(p, f, Some(r1.1), r2.0);
                let g4 = add_element(r3.0, r1.1, BlockElement::Expr(e));
                let next = BlockId { id: g4.len() as usize };
                (add_source_to(add_source_to(new_block(g4), next, r2.1), next, r3.1), next)
            },
            Expr::CaseOf(x, cases) => {
                proof {
                    assert(parts(expr)[0] == x);
                }
                let r1 = run(p, x, g, b);
                let g2 = add_element(r1.0, r1.1, BlockElement::Expr(e));
                let next = BlockId { id: g2.len() as usize };
                (run_cases(p, case_bodies(cases@), e.id, new_block(g2), r1.1, next), next)
            },
            Expr::RecordUpdate(receiver, updates) => {
                proof {
                    assert(parts(expr)[0] == receiver);
                }
                let r1 = run(p, receiver, g, b);
                let r2 = run_blocks(p, update_ids(updates@), e.id, r1.0, r1.1);
                (add_element(r2.0, r2.1, BlockElement::Expr(e)), r2.1)
            },
            _ => {
                let r = run_seq(p, parts(expr), e.id, g, b);
                (add_element(r.0, r.1, BlockElement::Expr(e)), r.1)
            },
        }
    }
}

/// The blocks after the expression `e` was added in a new block, whose source
/// is `source` where there is one, and the block where control is after it.
pub open spec fn run_block(p: Program, e: ExprId, source: Option<BlockId>, g: BlockModels) -> (BlockModels, BlockId)
    decreases e.id, 2nat, 0nat,
{
    let nb = BlockId { id: g.len() as usize };
    let g1 = new_block(g);
    let g2 = match source {
        Some(s) => add_source_to(g1, nb, s),
        None => g1,
    };
    run(p, e, g2, nb)
}

/// The expressions added one after the other, each where the previous one left control.
pub open spec fn run_seq(p: Program, ids: Seq<ExprId>, bound: usize, g: BlockModels, b: BlockId) -> (BlockModels, BlockId)
    decreases bound, 0nat, ids.len(),
{
    if ids.len() == 0 {
        (g, b)
    } else if ids.last().id < bound {
        let r = run_seq(p, ids.drop_last(), bound, g, b);
        run(p, ids.last(), r.0, r.1)
    } else {
        (g, b)
    }
}

/// The expressions added one after the other, each in a new block whose
/// source is the block where the previous one left control.
pub open spec fn run_blocks(p: Program, ids: Seq<ExprId>, bound: usize, g: BlockModels, b: BlockId) -> (BlockModels, BlockId)
    decreases bound, 0nat, ids.len(),
{
    if ids.len() == 0 {
        (g, b)
    } else if ids.last().id < bound {
        let r = run_blocks(p, ids.drop_last(), bound, g, b);
        run_block(p, ids.last(), Some(r.1), r.0)
    } else {
        (g, b)
    }
}

/// The arms of a case added one after the other, each in a new block whose
/// source is `source`, each block where an arm leaves control a source of `next`.
pub open spec fn run_cases(p: Program, bodies: Seq<ExprId>, bound: usize, g: BlockModels, source: BlockId, next: BlockId) -> BlockModels
    decreases bound, 0nat, bodies.len(),
{
    if bodies.len() == 0 {
        g
    } else if bodies.last().id < bound {
        let g1 = run_cases(p, bodies.drop_last(), bound, g, source, next);
        let r = run_block(p, bodies.last(), Some(source), g1);
        add_source_to(r.0, next, r.1)
    } else {
        g
    }
}

/// A `do` block ends where control is after its last expression: that block
/// holds the `do`'s terminator as its last element.
pub proof fn lemma_do_terminates(p: Program, e: ExprId, g: BlockModels, b: BlockId)
    requires
        p.expr(e) is Do,
        all_below(parts(p.expr(e)), e.id),
        run(p, e, g, b).1.id < run(p, e, g, b).0.len(),
    ensures
        run(p, e, g, b).0[run(p, e, g, b).1.id as int].0.len() >= 1,
        run(p, e, g, b).0[run(p, e, g, b).1.id as int].0.last() == BlockElement::Terminator(e),
{
}

/// An `if` joins its two branches in a new block: control ends up in the
/// last block, which holds nothing and is reached from exactly two blocks,
/// the ends of the two branches; the `if` itself goes after its condition.
pub proof fn lemma_if_joins(p: Program, e: ExprId, g: BlockModels, b: BlockId)
    requires
        p.expr(e) is If,
        all_below(parts(p.expr(e)), e.id),
        run(p, e, g, b).0.len() <= usize::MAX,
    ensures
        ({
            let (g2, next) = run(p, e, g, b);
            let c = p.expr(e)->If_0;
            let t = p.expr(e)->If_1;
            let f = p.expr(e)->If_2;
            let r1 = run(p, c, g, b);
            let r2 = run_block(p, t, Some(r1.1), r1.0);
            let r3 = run_block(p, f, Some(r1.1), r2.0);
            &&& next.id == g2.len() - 1
            &&& g2[next.id as int].0 == Seq::<BlockElement>::empty()
            &&& g2[next.id as int].1 == seq![r2.1, r3.1]
        }),
{
    let c = p.expr(e)->If_0;
    let t = p.expr(e)->If_1;
    let f = p.expr(e)->If_2;
    let r1 = run(p, c, g, b);
    let r2 = run_block(p, t, Some(r1.1), r1.0);
    let r3 = run_block(p, f, Some(r1.1), r2.0);
    let g4 = add_element(r3.0, r1.1, BlockElement::Expr(e));
    let (g2, next) = run(p, e, g, b);
    assert(next.id == g4.len());
    assert(g2[next.id as int].1 =~= seq![r2.1, r3.1]);
}

/// Adding expressions never removes a block.
pub proof fn lemma_run_len(p: Program, e: ExprId, g: BlockModels, b: BlockId)
    ensures
        run(p, e, g, b).0.len() >= g.len(),
    decreases e.id, 1nat, 0nat,
{
    let expr = p.expr(e);
    if all_below(parts(expr), e.id) {
        match expr {
            Expr::Do(items) => {
                let g1 = add_element(g, b, BlockElement::Expr(e));
                let next = BlockId { id: g1.len() as usize };
                let g2 = add_source_to(new_block(g1), next, b);
                lemma_run_seq_len(p, items@, e.id, g2, next);
            },
            Expr::If(c, t, f) => {
                lemma_run_len(p, c, g, b);
                let r1 = run(p, c, g, b);
                lemma_run_block_len(p, t, Some(r1.1), r1.0);
                let r2 = run_block(p, t, Some(r1.1), r1.0);
                lemma_run_block_len(p, f, Some(r1.1), r2.0);
            },
            Expr::CaseOf(x, cases) => {
                assert(parts(expr)[0] == x);
                lemma_run_len(p, x, g, b);
                let r1 = run(p, x, g, b);
                let g2 = add_element(r1.0, r1.1, BlockElement::Expr(e));
                let next = BlockId { id: g2.len() as usize };
                lemma_run_cases_len(p, case_bodies(cases@), e.id, new_block(g2), r1.1, next);
            },
            Expr::RecordUpdate(receiver, updates) => {
                assert(parts(expr)[0] == receiver);
                lemma_run_len(p, receiver, g, b);
                let r1 = run(p, receiver, g, b);
                lemma_run_blocks_len(p, update_ids(updates@), e.id, r1.0, r1.1);
            },
            _ => {
                lemma_run_seq_len(p, parts(expr), e.id, g, b);
            },
        }
    }
}

/// Adding an expression in a new block adds at least that block.
pub proof fn lemma_run_block_len(p: Program, e: ExprId, source: Option<BlockId>, g: BlockModels)
    ensures
        run_block(p, e, source, g).0.len() > g.len(),
    decreases e.id, 2nat, 0nat,
{
    let nb = BlockId { id: g.len() as usize };
    let g1 = new_block(g);
    let g2 = match source {
        Some(s) => add_source_to(g1, nb, s),
        None => g1,
    };
    lemma_run_len(p, e, g2, nb);
}

/// Adding expressions one after the other never removes a block.
pub proof fn lemma_run_seq_len(p: Program, ids: Seq<ExprId>, bound: usize, g: BlockModels, b: BlockId)
    ensures
        run_seq(p, ids, bound, g, b).0.len() >= g.len(),
    decreases bound, 0nat, ids.len(),
{
    if ids.len() > 0 && ids.last().id < bound {
        lemma_run_seq_len(p, ids.drop_last(), bound, g, b);
        let r = run_seq(p, ids.drop_last(), bound, g, b);
        lemma_run_len(p, ids.last(), r.0, r.1);
    }
}

/// Adding expressions in new blocks never removes a block.
pub proof fn lemma_run_blocks_len(p: Program, ids: Seq<ExprId>, bound: usize, g: BlockModels, b: BlockId)
    ensures
        run_blocks(p, ids, bound, g, b).0.len() >= g.len(),
    decreases bound, 0nat, ids.len(),
{
    if ids.len() > 0 && ids.last().id < bound {
        lemma_run_blocks_len(p, ids.drop_last(), bound, g, b);
        let r = run_blocks(p, ids.drop_last(), bound, g, b);
        lemma_run_block_len(p, ids.last(), Some(r.1), r.0);
    }
}

/// Adding the arms of a case never removes a block.
pub proof fn lemma_run_cases_len(p: Program, bodies: Seq<ExprId>, bound: usize, g: BlockModels, source: BlockId, next: BlockId)
    ensures
        run_cases(p, bodies, bound, g, source, next).len() >= g.len(),
    decreases bound, 0nat, bodies.len(),
{
    if bodies.len() > 0 && bodies.last().id < bound {
        lemma_run_cases_len(p, bodies.drop_last(), bound, g, source, next);
        let g1 = run_cases(p, bodies.drop_last(), bound, g, source, next);
        lemma_run_block_len(p, bodies.last(), Some(source), g1);
    }
}

/// Adding the first `k` expressions one after the other leaves no more
/// blocks than adding them all.
pub proof fn lemma_run_seq_prefix(p: Program, ids: Seq<ExprId>, k: int, bound: usize, g: BlockModels, b: BlockId)
    requires
        all_below(ids, bound),
        0 <= k <= ids.len(),
    ensures
        run_seq(p, ids.subrange(0, k), bound, g, b).0.len() <= run_seq(p, ids, bound, g, b).0.len(),
    decreases ids.len() - k,
{
    if k < ids.len() {
        lemma_run_seq_prefix(p, ids.drop_last(), k, bound, g, b);
        assert(ids.drop_last().subrange(0, k) =~= ids.subrange(0, k));
        if ids.last().id < bound {
            let r = run_seq(p, ids.drop_last(), bound, g, b);
            lemma_run_len(p, ids.last(), r.0, r.1);
        }
    } else {
        assert(ids.subrange(0, k) =~= ids);
    }
}

/// Adding the first `k` expressions in new blocks leaves no more blocks than
/// adding them all.
pub proof fn lemma_run_blocks_prefix(p: Program, ids: Seq<ExprId>, k: int, bound: usize, g: BlockModels, b: BlockId)
    requires
        all_below(ids, bound),
        0 <= k <= ids.len(),
    ensures
        run_blocks(p, ids.subrange(0, k), bound, g, b).0.len() <= run_blocks(p, ids, bound, g, b).0.len(),
    decreases ids.len() - k,
{
    if k < ids.len() {
        lemma_run_blocks_prefix(p, ids.drop_last(), k, bound, g, b);
        assert(ids.drop_last().subrange(0, k) =~= ids.subrange(0, k));
        if ids.last().id < bound {
            let r = run_blocks(p, ids.drop_last(), bound, g, b);
            lemma_run_block_len(p, ids.last(), Some(r.1), r.0);
        }
    } else {
        assert(ids.subrange(0, k) =~= ids);
    }
}

/// Adding the first `k` arms of a case leaves no more blocks than adding them all.
pub proof fn lemma_run_cases_prefix(p: Program, bodies: Seq<ExprId>, k: int, bound: usize, g: BlockModels, source: BlockId, next: BlockId)
    requires
        all_below(bodies, bound),
        0 <= k <= bodies.len(),
    ensures
        run_cases(p, bodies.subrange(0, k), bound, g, source, next).len() <= run_cases(p, bodies, bound, g, source, next).len(),
    decreases bodies.len() - k,
{
    if k < bodies.len() {
        lemma_run_cases_prefix(p, bodies.drop_last(), k, bound, g, source, next);
        assert(bodies.drop_last().subrange(0, k) =~= bodies.subrange(0, k));
        if bodies.last().id < bound {
            let g1 = run_cases(p, bodies.drop_last(), bound, g, source, next);
            lemma_run_block_len(p, bodies.last(), Some(source), g1);
        }
    } else {
        assert(bodies.subrange(0, k) =~= bodies);
    }
}

/// The control flow graph of one function body: blocks numbered from zero in
/// the order of their creation, each with its elements and its sources.
#[derive(Debug)]
pub struct ControlFlowGraph {
    name: String,
    next_block: Counter,
    blocks: Vec<BasicBlock>,
}

impl ControlFlowGraph {
    /// The elements and the sources of each block, by number.
    pub closed spec fn model(&self) -> BlockModels {
        Seq::new(self.blocks@.len(), |i: int| (self.blocks@[i].elements@, self.blocks@[i].sources@))
    }

    /// The name of the graph.
    pub closed spec fn name(&self) -> Seq<char> {
        self.name@
    }

    /// Each block sits at its own number, and the next number follows them.
    pub closed spec fn wf(&self) -> bool {
        &&& self.next_block.value == self.blocks@.len()
        &&& forall|i: int| 0 <= i < self.blocks@.len() ==> (#[trigger] self.blocks@[i]).id.id == i
    }

    /// The graph of a function body named `name`: control starts in block 0,
    /// which the body is added to (see [`run_block`]). The caller looks up the
    /// function and its body.
    pub fn create(name: String, body: ExprId, program: &Program) -> (r: ControlFlowGraph)
        requires
            well_founded(*program),
            program.has_expr(body),
            run_block(*program, body, None, Seq::empty()).0.len() <= usize::MAX,
        ensures
            r.wf(),
            r.name() == name@,
            r.model() == run_block(*program, body, None, Seq::empty()).0,
    {
        let mut cfg = ControlFlowGraph { name: name, next_block: Counter::new(), blocks: Vec::new() };
        assert(cfg.model() =~= Seq::<(Seq<BlockElement>, Seq<BlockId>)>::empty());
        cfg.process_block(body, program, None);
        cfg
    }

    /// Appends `element` to the block `block_id`.
    fn push_element(&mut self, block_id: BlockId, element: BlockElement)
        requires
            old(self).wf(),
            block_id.id < old(self).model().len(),
        ensures
            final(self).wf(),
            final(self).name() == old(self).name(),
            final(self).model() == add_element(old(self).model(), block_id, element),
    {
        let mut block = self.blocks.remove(block_id.id);
        block.elements.push(element);
        self.blocks.insert(block_id.id, block);
        assert(self.model() =~= add_element(old(self).model(), block_id, element));
    }

    /// Appends the expression `expr_id` to the block `block_id`.
    fn add_expr_to_block(&mut self, block_id: BlockId, expr_id: ExprId)
        requires
            old(self).wf(),
            block_id.id < old(self).model().len(),
        ensures
            final(self).wf(),
            final(self).name() == old(self).name(),
            final(self).model() == add_element(old(self).model(), block_id, BlockElement::Expr(expr_id)),
    {
        self.push_element(block_id, BlockElement::Expr(expr_id));
    }

    /// Ends the block `block_id` with the expression `expr_id`.
    fn add_terminator_to_block(&mut self, block_id: BlockId, expr_id: ExprId)
        requires
            old(self).wf(),
            block_id.id < old(self).model().len(),
        ensures
            final(self).wf(),
            final(self).name() == old(self).name(),
            final(self).model() == add_element(old(self).model(), block_id, BlockElement::Terminator(expr_id)),
    {
        self.push_element(block_id, BlockElement::Terminator(expr_id));
    }

    /// Records that control comes to the block `block_id` from `source`.
    fn add_source(&mut self, block_id: BlockId, source: BlockId)
        requires
            old(self).wf(),
            block_id.id < old(self).model().len(),
        ensures
            final(self).wf(),
            final(self).name() == old(self).name(),
            final(self).model() == add_source_to(old(self).model(), block_id, source),
    {
        let mut block = self.blocks.remove(block_id.id);
        block.sources.push(source);
        self.blocks.insert(block_id.id, block);
        assert(self.model() =~= add_source_to(old(self).model(), block_id, source));
    }

    /// Makes a new empty block, numbered after the existing ones.
    fn create_block(&mut self) -> (r: BlockId)
        requires
            old(self).wf(),
            old(self).model().len() < usize::MAX,
        ensures
            final(self).wf(),
            final(self).name() == old(self).name(),
            r.id == old(self).model().len(),
            final(self).model() == new_block(old(self).model()),
    {
        let block_id = BlockId::from(self.next_block.next());
        let block = BasicBlock::new(block_id);
        assert(block.elements@ =~= Seq::<BlockElement>::empty());
        assert(block.sources@ =~= Seq::<BlockId>::empty());
        self.blocks.push(block);
        assert(self.model() =~= new_block(old(self).model()));
        block_id
    }

    /// Adds the expression `expr_id` to the graph, starting in the block
    /// `block_id`; returns the block where control is once it is evaluated
    /// (see [`run`]).
    fn process_expr(&mut self, expr_id: ExprId, program: &Program, block_id: BlockId) -> (r: BlockId)
        requires
            old(self).wf(),
            well_founded(*program),
            program.has_expr(expr_id),
            block_id.id < old(self).model().len(),
            run(*program, expr_id, old(self).model(), block_id).0.len() <= usize::MAX,
        ensures
            final(self).wf(),
            final(self).name() == old(self).name(),
            (final(self).model(), r) == run(*program, expr_id, old(self).model(), block_id),
            r.id < final(self).model().len(),
        decreases expr_id.id, 1nat, 0nat,
    {
        let ghost p = *program;
        let ghost g = self.model();
        let expr = program.get_expr(expr_id);
        proof {
            assert(p.has_expr(expr_id));
            assert(all_below(parts(*expr), expr_id.id));
        }
        match expr {
            Expr::Do(items) => {
                proof {
                    let g1 = add_element(g, block_id, BlockElement::Expr(expr_id));
                    let next = BlockId { id: g1.len() as usize };
                    let g2 = add_source_to(new_block(g1), next, block_id);
                    lemma_run_seq_len(p, items@, expr_id.id, g2, next);
                    assert forall|i: int| 0 <= i < items@.len() implies p.has_expr(#[trigger] items@[i]) by {
                        assert(parts(*expr)[i] == items@[i]);
                    }
                }
                self.add_expr_to_block(block_id, expr_id);
                let next = self.create_block();
                self.add_source(next, block_id);
                let b = self.process_exprs(items, Ghost(expr_id.id), program, next);
                self.add_terminator_to_block(b, expr_id);
                b
            },
            Expr::If(c, t, f) => {
                proof {
                    assert(parts(*expr)[0] == *c && parts(*expr)[1] == *t && parts(*expr)[2] == *f);
                    let r1 = run(p, *c, g, block_id);
                    lemma_run_len(p, *c, g, block_id);
                    let r2 = run_block(p, *t, Some(r1.1), r1.0);
                    lemma_run_block_len(p, *t, Some(r1.1), r1.0);
                    lemma_run_block_len(p, *f, Some(r1.1), r2.0);
                }
                let b = self.process_expr(*c, program, block_id);
                let tb = self.process_block(*t, program, Some(b));
                let fb = self.process_block(*f, program, Some(b));
                self.add_expr_to_block(b, expr_id);
                let next = self.create_block();
                self.add_source(next, tb);
                self.add_source(next, fb);
                next
            },
            Expr::CaseOf(x, cases) => {
                proof {
                    assert(parts(*expr)[0] == *x);
                    let r1 = run(p, *x, g, block_id);
                    lemma_run_len(p, *x, g, block_id);
                    let g2 = add_element(r1.0, r1.1, BlockElement::Expr(expr_id));
                    let next = BlockId { id: g2.len() as usize };
                    lemma_run_cases_len(p, case_bodies(cases@), expr_id.id, new_block(g2), r1.1, next);
                    assert forall|i: int| 0 <= i < cases@.len() implies p.has_expr(#[trigger] case_bodies(cases@)[i])
                        && case_bodies(cases@)[i].id < expr_id.id by {
                        assert(parts(*expr)[i + 1] == case_bodies(cases@)[i]);
                    }
                }
                let b = self.process_expr(*x, program, block_id);
                self.add_expr_to_block(b, expr_id);
                let next = self.create_block();
                self.process_cases(cases, Ghost(expr_id.id), program, b, next);
                next
            },
            Expr::RecordUpdate(receiver, updates) => {
                let ids = Self::update_expr_ids(updates);
                proof {
                    assert(parts(*expr)[0] == *receiver);
                    let r1 = run(p, *receiver, g, block_id);
                    lemma_run_len(p, *receiver, g, block_id);
                    lemma_run_blocks_len(p, update_ids(updates@), expr_id.id, r1.0, r1.1);
                    assert forall|i: int| 0 <= i < ids@.len() implies p.has_expr(#[trigger] ids@[i])
                        && ids@[i].id < expr_id.id by {
                        assert(parts(*expr)[i + 1] == ids@[i]);
                    }
                }
                let b = self.process_expr(*receiver, program, block_id);
                let b = self.process_blocks(&ids, Ghost(expr_id.id), program, b);
                self.add_expr_to_block(b, expr_id);
                b
            },
            _ => {
                let ids = Self::simple_parts(expr);
                proof {
                    lemma_run_seq_len(p, parts(*expr), expr_id.id, g, block_id);
                    assert forall|i: int| 0 <= i < ids@.len() implies p.has_expr(#[trigger] ids@[i])
                        && ids@[i].id < expr_id.id by {
                        assert(parts(*expr)[i] == ids@[i]);
                    }
                }
                let b = self.process_exprs(&ids, Ghost(expr_id.id), program, block_id);
                self.add_expr_to_block(b, expr_id);
                b
            },
        }
    }

    /// The parts of an expression that is neither a `do`, an `if`, a `case`
    /// nor a record update.
    fn simple_parts(expr: &Expr) -> (r: Vec<ExprId>)
        ensures
            r@ == parts(*expr),
    {
        let r = match expr {
            Expr::Bind(_, rhs) => vec![*rhs],
            Expr::ClassFunctionCall(_, args) => args.clone(),
            Expr::DynamicFunctionCall(_, args) => args.clone(),
            Expr::Do(items) => items.clone(),
            Expr::FieldAccess(_, receiver) => vec![*receiver],
            Expr::Formatter(_, args) => args.clone(),
            Expr::List(items) => items.clone(),
            Expr::StaticFunctionCall(_, args) => args.clone(),
            Expr::RecordInitialization(_, items) => Self::field_expr_ids(items),
            Expr::Tuple(items) => items.clone(),
            Expr::TupleFieldAccess(_, receiver) => vec![*receiver],
            Expr::CaseOf(x, cases) => {
                let mut v = vec![*x];
                let mut i: usize = 0;
                while i < cases.len()
                    invariant
                        i <= cases@.len(),
                        v@ == seq![*x] + case_bodies(cases@).subrange(0, i as int),
                    decreases cases@.len() - i,
                {
                    v.push(cases[i].body);
                    i += 1;
                    assert(v@ =~= seq![*x] + case_bodies(cases@).subrange(0, i as int));
                }
                assert(case_bodies(cases@).subrange(0, i as int) =~= case_bodies(cases@));
                v
            },
            Expr::If(c, t, f) => vec![*c, *t, *f],
            Expr::RecordUpdate(receiver, updates) => {
                let mut v = vec![*receiver];
                let ids = Self::update_expr_ids(updates);
                let mut i: usize = 0;
                while i < ids.len()
                    invariant
                        i <= ids@.len(),
                        v@ == seq![*receiver] + ids@.subrange(0, i as int),
                    decreases ids@.len() - i,
                {
                    v.push(ids[i]);
                    i += 1;
                    assert(v@ =~= seq![*receiver] + ids@.subrange(0, i as int));
                }
                assert(ids@.subrange(0, i as int) =~= ids@);
                v
            },
            _ => Vec::new(),
        };
        proof {
            match expr {
                Expr::Bind(..) | Expr::FieldAccess(..) | Expr::TupleFieldAccess(..) | Expr::If(..) => {
                    assert(r@ =~= parts(*expr));
                },
                Expr::ClassFunctionCall(_, args) | Expr::DynamicFunctionCall(_, args) | Expr::Formatter(_, args)
                | Expr::StaticFunctionCall(_, args) | Expr::List(args) | Expr::Tuple(args) | Expr::Do(args) => {
                    assert(r@ =~= args@);
                },
                _ => {
                    assert(r@ =~= parts(*expr));
                },
            }
        }
        r
    }

    /// The expressions that give the fields their values.
    pub(crate) fn field_expr_ids(items: &Vec<RecordFieldValueExpr>) -> (r: Vec<ExprId>)
        ensures
            r@ == field_ids(items@),
    {
        let mut v: Vec<ExprId> = Vec::new();
        let mut i: usize = 0;
        while i < items.len()
            invariant
                i <= items@.len(),
                v@ == field_ids(items@).subrange(0, i as int),
            decreases items@.len() - i,
        {
            v.push(items[i].expr_id);
            i += 1;
            assert(v@ =~= field_ids(items@).subrange(0, i as int));
        }
        assert(field_ids(items@).subrange(0, i as int) =~= field_ids(items@));
        v
    }

    /// The expressions of the new field values of a record update, in order.
    fn update_expr_ids(updates: &Vec<RecordUpdateInfo>) -> (r: Vec<ExprId>)
        ensures
            r@ == update_ids(updates@),
    {
        let mut v: Vec<ExprId> = Vec::new();
        let mut u: usize = 0;
        while u < updates.len()
            invariant
                u <= updates@.len(),
                v@ == update_ids(updates@.subrange(0, u as int)),
            decreases updates@.len() - u,
        {
            let ids = Self::field_expr_ids(&updates[u].items);
            let mut j: usize = 0;
            let ghost start = v@;
            while j < ids.len()
                invariant
                    j <= ids@.len(),
                    v@ == start + ids@.subrange(0, j as int),
                decreases ids@.len() - j,
            {
                v.push(ids[j]);
                j += 1;
                assert(v@ =~= start + ids@.subrange(0, j as int));
            }
            proof {
                assert(ids@.subrange(0, j as int) =~= ids@);
                let sub = updates@.subrange(0, u + 1);
                assert(sub.drop_last() =~= updates@.subrange(0, u as int));
                assert(sub.last() == updates@[u as int]);
            }
            u += 1;
        }
        assert(updates@.subrange(0, u as int) =~= updates@);
        v
    }

    /// Adds the expressions one after the other, starting in `block_id`.
    fn process_exprs(&mut self, ids: &Vec<ExprId>, Ghost(bound): Ghost<usize>, program: &Program, block_id: BlockId) -> (r: BlockId)
        requires
            old(self).wf(),
            well_founded(*program),
            forall|i: int| 0 <= i < ids@.len() ==> program.has_expr(#[trigger] ids@[i]) && ids@[i].id < bound,
            block_id.id < old(self).model().len(),
            run_seq(*program, ids@, bound, old(self).model(), block_id).0.len() <= usize::MAX,
        ensures
            final(self).wf(),
            final(self).name() == old(self).name(),
            (final(self).model(), r) == run_seq(*program, ids@, bound, old(self).model(), block_id),
            r.id < final(self).model().len(),
        decreases bound, 0nat, 0nat,
    {
        let ghost p = *program;
        let ghost g = self.model();
        let mut b = block_id;
        let mut i: usize = 0;
        proof {
            assert(ids@.subrange(0, 0) =~= Seq::<ExprId>::empty());
        }
        while i < ids.len()
            invariant
                i <= ids@.len(),
                p == *program,
                well_founded(p),
                forall|k: int| 0 <= k < ids@.len() ==> p.has_expr(#[trigger] ids@[k]) && ids@[k].id < bound,
                self.wf(),
                self.name() == old(self).name(),
                (self.model(), b) == run_seq(p, ids@.subrange(0, i as int), bound, g, block_id),
                b.id < self.model().len(),
                run_seq(p, ids@, bound, g, block_id).0.len() <= usize::MAX,
            decreases ids@.len() - i,
        {
            let ghost sub = ids@.subrange(0, i + 1);
            proof {
                assert(sub.drop_last() =~= ids@.subrange(0, i as int));
                assert(sub.last() == ids@[i as int]);
                assert(all_below(ids@, bound));
                lemma_run_seq_prefix(p, ids@, i + 1, bound, g, block_id);
            }
            b = self.process_expr(ids[i], program, b);
            i += 1;
        }
        proof {
            assert(ids@.subrange(0, i as int) =~= ids@);
        }
        b
    }

    /// Adds the expressions one after the other, each in a new block whose
    /// source is the block where the previous one left control.
    fn process_blocks(&mut self, ids: &Vec<ExprId>, Ghost(bound): Ghost<usize>, program: &Program, block_id: BlockId) -> (r: BlockId)
        requires
            old(self).wf(),
            well_founded(*program),
            forall|i: int| 0 <= i < ids@.len() ==> program.has_expr(#[trigger] ids@[i]) && ids@[i].id < bound,
            block_id.id < old(self).model().len(),
            run_blocks(*program, ids@, bound, old(self).model(), block_id).0.len() <= usize::MAX,
        ensures
            final(self).wf(),
            final(self).name() == old(self).name(),
            (final(self).model(), r) == run_blocks(*program, ids@, bound, old(self).model(), block_id),
            r.id < final(self).model().len(),
        decreases bound, 0nat, 0nat,
    {
        let ghost p = *program;
        let ghost g = self.model();
        let mut b = block_id;
        let mut i: usize = 0;
        proof {
            assert(ids@.subrange(0, 0) =~= Seq::<ExprId>::empty());
        }
        while i < ids.len()
            invariant
                i <= ids@.len(),
                p == *program,
                well_founded(p),
                forall|k: int| 0 <= k < ids@.len() ==> p.has_expr(#[trigger] ids@[k]) && ids@[k].id < bound,
                self.wf(),
                self.name() == old(self).name(),
                (self.model(), b) == run_blocks(p, ids@.subrange(0, i as int), bound, g, block_id),
                b.id < self.model().len(),
                run_blocks(p, ids@, bound, g, block_id).0.len() <= usize::MAX,
            decreases ids@.len() - i,
        {
            let ghost sub = ids@.subrange(0, i + 1);
            proof {
                assert(sub.drop_last() =~= ids@.subrange(0, i as int));
                assert(sub.last() == ids@[i as int]);
                assert(all_below(ids@, bound));
                lemma_run_blocks_prefix(p, ids@, i + 1, bound, g, block_id);
            }
            b = self.process_block(ids[i], program, Some(b));
            i += 1;
        }
        proof {
            assert(ids@.subrange(0, i as int) =~= ids@);
        }
        b
    }

    /// Adds each arm of a case in a new block whose source is `source`, and
    /// makes the block where each arm leaves control a source of `next`.
    fn process_cases(&mut self, cases: &Vec<Case>, Ghost(bound): Ghost<usize>, program: &Program, source: BlockId, next: BlockId)
        requires
            old(self).wf(),
            well_founded(*program),
            forall|i: int| 0 <= i < cases@.len() ==> program.has_expr(#[trigger] case_bodies(cases@)[i])
                && case_bodies(cases@)[i].id < bound,
            source.id < old(self).model().len(),
            next.id < old(self).model().len(),
            run_cases(*program, case_bodies(cases@), bound, old(self).model(), source, next).len() <= usize::MAX,
        ensures
            final(self).wf(),
            final(self).name() == old(self).name(),
            final(self).model() == run_cases(*program, case_bodies(cases@), bound, old(self).model(), source, next),
        decreases bound, 0nat, 0nat,
    {
        let ghost p = *program;
        let ghost g = self.model();
        let ghost bodies = case_bodies(cases@);
        let mut i: usize = 0;
        proof {
            assert(bodies.subrange(0, 0) =~= Seq::<ExprId>::empty());
        }
        while i < cases.len()
            invariant
                i <= cases@.len(),
                p == *program,
                bodies == case_bodies(cases@),
                well_founded(p),
                forall|k: int| 0 <= k < cases@.len() ==> p.has_expr(#[trigger] bodies[k]) && bodies[k].id < bound,
                self.wf(),
                self.name() == old(self).name(),
                self.model() == run_cases(p, bodies.subrange(0, i as int), bound, g, source, next),
                source.id < self.model().len(),
                next.id < self.model().len(),
                run_cases(p, bodies, bound, g, source, next).len() <= usize::MAX,
            decreases cases@.len() - i,
        {
            let ghost sub = bodies.subrange(0, i + 1);
            proof {
                assert(sub.drop_last() =~= bodies.subrange(0, i as int));
                assert(sub.last() == bodies[i as int]);
                assert(bodies[i as int] == cases@[i as int].body);
                assert(all_below(bodies, bound));
                lemma_run_cases_prefix(p, bodies, i + 1, bound, g, source, next);
                let g1 = run_cases(p, bodies.subrange(0, i as int), bound, g, source, next);
                lemma_run_block_len(p, bodies[i as int], Some(source), g1);
            }
            let cb = self.process_block(cases[i].body, program, Some(source));
            self.add_source(next, cb);
            i += 1;
        }
        proof {
            assert(bodies.subrange(0, i as int) =~= bodies);
        }
    }

    /// Adds the expression `expr_id` in a new block, whose source is `source`
    /// where there is one; returns the block where control is after it.
    fn process_block(&mut self, expr_id: ExprId, program: &Program, source: Option<BlockId>) -> (r: BlockId)
        requires
            old(self).wf(),
            well_founded(*program),
            program.has_expr(expr_id),
            run_block(*program, expr_id, source, old(self).model()).0.len() <= usize::MAX,
        ensures
            final(self).wf(),
            final(self).name() == old(self).name(),
            (final(self).model(), r) == run_block(*program, expr_id, source, old(self).model()),
            r.id < final(self).model().len(),
            final(self).model().len() > old(self).model().len(),
        decreases expr_id.id, 2nat, 0nat,
    {
        proof {
            lemma_run_block_len(*program, expr_id, source, self.model());
            let g = self.model();
            let nb = BlockId { id: g.len() as usize };
            let g1 = new_block(g);
            let g2 = match source {
                Some(s) => add_source_to(g1, nb, s),
                None => g1,
            };
            lemma_run_len(*program, expr_id, g2, nb);
        }
        let block_id = self.create_block();
        if let Some(source) = source {
            self.add_source(block_id, source);
        }
        self.process_expr(expr_id, program, block_id)
    }
}

} // verus!
