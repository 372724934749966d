pub mod cfg;
pub mod dfg;
pub mod environment;

use crate::cfg::all_below;
use crate::cfg::field_ids;
use crate::cfg::parts;
use crate::flow_graph::cfg::BlockElement;
use crate::flow_graph::cfg::BlockId;
use crate::flow_graph::cfg::ControlFlowGraph;
use crate::flow_graph::cfg::Edge as CfgEdge;
use crate::flow_graph::dfg::DataflowGraph;
use crate::flow_graph::dfg::Edge as DfgEdge;
use crate::flow_graph::dfg::ValueId;
use crate::flow_graph::dfg::ValueSource;
use crate::flow_graph::environment::CallableKind;
use crate::flow_graph::environment::Environment;
use crate::ir::expr::Case;
use crate::ir::expr::Expr;
use crate::ir::expr::ExprId;
use crate::ir::expr::FunctionArgumentRef;
use crate::ir::expr::RecordFieldValueExpr;
use crate::ir::function::FunctionId;
use crate::ir::pattern::Pattern;
use crate::ir::pattern::PatternId;
use crate::ir::program::Program;
use vstd::prelude::*;

verus! {

/// What building the flow graphs of a function body has made so far: the
/// blocks with their elements, the control edges, the sources of the values,
/// the value edges and the values of the variables; `ok` is false once the
/// building would have stopped (a variable or argument without a value, a
/// malformed expression, or parts not made before what holds them).
pub struct FlowState {
    pub ok: bool,
    pub blocks: Seq<Seq<BlockElement>>,
    pub block_edges: Seq<(BlockId, BlockId, CfgEdge)>,
    pub sources: Seq<ValueSource>,
    pub value_edges: Seq<(ValueId, ValueId, DfgEdge)>,
    pub vars: Map<PatternId, ValueId>,
}

/// The state once building has stopped.
pub open spec fn failed(s: FlowState) -> FlowState {
    FlowState { ok: false, ..s }
}

/// The state with `element` appended to the block `b`.
pub open spec fn add_elem(s: FlowState, b: BlockId, element: BlockElement) -> FlowState {
    FlowState {
        blocks: if b.id < s.blocks.len() {
            s.blocks.update(b.id as int, s.blocks[b.id as int].push(element))
        } else {
            s.blocks
        },
        ..s
    }
}

/// The state with a new empty block, and that block.
pub open spec fn new_block(s: FlowState) -> (FlowState, BlockId) {
    (FlowState { blocks: s.blocks.push(Seq::empty()), ..s }, BlockId { id: s.blocks.len() as usize })
}

/// The state with a control edge added.
pub open spec fn block_edge(s: FlowState, from: BlockId, to: BlockId, edge: CfgEdge) -> FlowState {
    FlowState { block_edges: s.block_edges.push((from, to, edge)), ..s }
}

/// The state with a new value from `source`, and that value.
pub open spec fn new_value(s: FlowState, source: ValueSource) -> (FlowState, ValueId) {
    (FlowState { sources: s.sources.push(source), ..s }, ValueId { id: s.sources.len() as usize })
}

/// The state with a value edge added.
pub open spec fn value_edge(s: FlowState, from: ValueId, to: ValueId, edge: DfgEdge) -> FlowState {
    FlowState { value_edges: s.value_edges.push((from, to, edge)), ..s }
}

/// The state with the variable `var` bound to `value`.
pub open spec fn bind(s: FlowState, var: PatternId, value: ValueId) -> FlowState {
    FlowState { vars: s.vars.insert(var, value), ..s }
}

/// The edges from the arguments of a call, by position.
pub open spec fn fn_arg_tags(n: nat) -> Seq<DfgEdge> {
    Seq::new(n, |i: int| DfgEdge::FnArg(i as usize))
}

/// The edges from the elements of a list, by position.
pub open spec fn list_tags(n: nat) -> Seq<DfgEdge> {
    Seq::new(n, |i: int| DfgEdge::ListElement(i as usize))
}

/// The edges from the field values of a record, by field position.
pub open spec fn record_tags(items: Seq<RecordFieldValueExpr>) -> Seq<DfgEdge> {
    Seq::new(items.len(), |i: int| DfgEdge::RecordField(items[i].index))
}

/// Building the graphs of the expression `e`, starting in the block `b`, with
/// `args` giving the values of the function arguments: the state after it,
/// the block where control is then and the value of the expression.
pub open spec fn run_expr(
    p: Program,
    args: spec_fn(FunctionArgumentRef) -> Option<ValueId>,
    e: ExprId,
    s: FlowState,
    b: BlockId,
) -> (FlowState, BlockId, ValueId)
    decreases e.id, 2nat, 0nat, 0nat,
{
    let expr = p.expr(e);
    let none = ValueId { id: 0 };
    if !p.has_expr(e) || !all_below(parts(expr), e.id) {
        (failed(s), b, none)
    } else {
        match expr {
            Expr::ArgRef(a) => match args(a) {
                Some(v) => (add_elem(s, b, BlockElement::Expr(e)), b, v),
                None => (failed(s), b, none),
            },
            Expr::Bind(pid, rhs) => {
                proof {
                    assert(parts(expr)[0] == rhs);
                }
                let r = run_expr(p, args, rhs, s, b);
                let q = run_pattern(p, args, pid, r.0, r.1, e.id);
                (add_elem(q.0, r.1, BlockElement::Expr(e)), r.1, r.2)
            },
            Expr::CaseOf(x, cases) => {
                proof {
                    assert(parts(expr)[0] == x);
                }
                let r = run_expr(p, args, x, s, b);
                let s1 = add_elem(r.0, r.1, BlockElement::Expr(e));
                let nb = new_block(s1);
                let nv = new_value(nb.0, ValueSource::Expr(e));
                (run_cases(p, args, cases@, e.id, nv.0, r.1, nb.1, nv.1), nb.1, nv.1)
            },
            Expr::ClassFunctionCall(_, call_args) => {
                let nv = new_value(s, ValueSource::Expr(e));
                let r = run_edges(p, args, call_args@, fn_arg_tags(call_args@.len()), e.id, nv.0, b, nv.1);
                (add_elem(r.0, r.1, BlockElement::Expr(e)), r.1, nv.1)
            },
            Expr::DynamicFunctionCall(_, call_args) => {
                let nv = new_value(s, ValueSource::Expr(e));
                let r = run_edges(p, args, call_args@, fn_arg_tags(call_args@.len()), e.id, nv.0, b, nv.1);
                (add_elem(r.0, r.1, BlockElement::Expr(e)), r.1, nv.1)
            },
            Expr::StaticFunctionCall(_, call_args) => {
                let nv = new_value(s, ValueSource::Expr(e));
                let r = run_edges(p, args, call_args@, fn_arg_tags(call_args@.len()), e.id, nv.0, b, nv.1);
                (add_elem(r.0, r.1, BlockElement::Expr(e)), r.1, nv.1)
            },
            Expr::Do(items) => if items@.len() == 0 {
                (failed(s), b, none)
            } else {
                let s1 = add_elem(s, b, BlockElement::Expr(e));
                let nb = new_block(s1);
                let s2 = block_edge(nb.0, b, nb.1, CfgEdge::Jump);
                let r = run_plain(p, args, items@, e.id, s2, nb.1);
                (add_elem(r.0, r.1, BlockElement::Terminator(e)), r.1, r.2)
            },
            Expr::ExprValue(_, pid) => if s.vars.contains_key(pid) {
                (add_elem(s, b, BlockElement::Expr(e)), b, s.vars[pid])
            } else {
                (failed(s), b, none)
            },
            Expr::FieldAccess(infos, receiver) => if infos@.len() != 1 {
                (failed(s), b, none)
            } else {
                proof {
                    assert(parts(expr)[0] == receiver);
                }
                let r = run_expr(p, args, receiver, s, b);
                let nv = new_value(r.0, ValueSource::Expr(e));
                (add_elem(nv.0, r.1, BlockElement::Expr(e)), r.1, nv.1)
            },
            Expr::Formatter(_, items) => {
                let r = run_plain(p, args, items@, e.id, s, b);
                let nv = new_value(r.0, ValueSource::Expr(e));
                (add_elem(nv.0, r.1, BlockElement::Expr(e)), r.1, nv.1)
            },
            Expr::Tuple(items) => {
                let r = run_plain(p, args, items@, e.id, s, b);
                let nv = new_value(r.0, ValueSource::Expr(e));
                (add_elem(nv.0, r.1, BlockElement::Expr(e)), r.1, nv.1)
            },
            Expr::If(c, t, f) => {
                proof {
                    assert(parts(expr)[0] == c && parts(expr)[1] == t && parts(expr)[2] == f);
                }
                let r1 = run_expr(p, args, c, s, b);
                let r2 = run_block(p, args, t, CfgEdge::If(true), Some(r1.1), r1.0);
                let r3 = run_block(p, args, f, CfgEdge::If(false), Some(r1.1), r2.0);
                let nv = new_value(r3.0, ValueSource::Expr(e));
                let s5 = add_elem(nv.0, r1.1, BlockElement::Expr(e));
                let nb = new_block(s5);
                let s7 = block_edge(block_edge(nb.0, r2.1, nb.1, CfgEdge::Jump), r3.1, nb.1, CfgEdge::Jump);
                let s8 = value_edge(value_edge(s7, r2.2, nv.1, DfgEdge::If(true)), r3.2, nv.1, DfgEdge::If(false));
                (s8, nb.1, r1.2)
            },
            Expr::List(items) => {
                let nv = new_value(s, ValueSource::Expr(e));
                let r = run_edges(p, args, items@, list_tags(items@.len()), e.id, nv.0, b, nv.1);
                (add_elem(r.0, r.1, BlockElement::Expr(e)), r.1, nv.1)
            },
            Expr::RecordInitialization(_, items) => {
                let nv = new_value(s, ValueSource::Expr(e));
                let r = run_edges(p, args, field_ids(items@), record_tags(items@), e.id, nv.0, b, nv.1);
                (add_elem(r.0, r.1, BlockElement::Expr(e)), r.1, nv.1)
            },
            Expr::RecordUpdate(receiver, updates) => {
                proof {
                    assert(parts(expr)[0] == receiver);
                }
                let r = run_expr(p, args, receiver, s, b);
                let nv = new_value(r.0, ValueSource::Expr(e));
                let s2 = value_edge(nv.0, r.2, nv.1, DfgEdge::RecordUpdateSource);
                if updates@.len() != 1 {
                    (failed(s2), r.1, nv.1)
                } else {
                    let items = updates@[0].items@;
                    let f = run_edges(p, args, field_ids(items), record_tags(items), e.id, s2, r.1, nv.1);
                    (add_elem(f.0, f.1, BlockElement::Expr(e)), f.1, nv.1)
                }
            },
            Expr::TupleFieldAccess(_, receiver) => {
                proof {
                    assert(parts(expr)[0] == receiver);
                }
                let r = run_expr(p, args, receiver, s, b);
                let nv = new_value(r.0, ValueSource::Expr(e));
                (add_elem(nv.0, r.1, BlockElement::Expr(e)), r.1, nv.1)
            },
            _ => {
                let nv = new_value(s, ValueSource::Expr(e));
                (add_elem(nv.0, b, BlockElement::Expr(e)), b, nv.1)
            },
        }
    }
}

/// Building the graphs of `e` in a new block, reached from `source` by an
/// edge `edge` where there is a source.
pub open spec fn run_block(
    p: Program,
    args: spec_fn(FunctionArgumentRef) -> Option<ValueId>,
    e: ExprId,
    edge: CfgEdge,
    source: Option<BlockId>,
    s: FlowState,
) -> (FlowState, BlockId, ValueId)
    decreases e.id, 3nat, 0nat, 0nat,
{
    let nb = new_block(s);
    let s2 = match source {
        Some(src) => block_edge(nb.0, src, nb.1, edge),
        None => nb.0,
    };
    run_expr(p, args, e, s2, nb.1)
}

/// Building the expressions one after the other; with the value of the last.
pub open spec fn run_plain(
    p: Program,
    args: spec_fn(FunctionArgumentRef) -> Option<ValueId>,
    ids: Seq<ExprId>,
    bound: usize,
    s: FlowState,
    b: BlockId,
) -> (FlowState, BlockId, ValueId)
    decreases bound, 1nat, ids.len(), 0nat,
{
    if ids.len() == 0 {
        (s, b, ValueId { id: 0 })
    } else if ids.last().id < bound {
        let r = run_plain(p, args, ids.drop_last(), bound, s, b);
        run_expr(p, args, ids.last(), r.0, r.1)
    } else {
        (failed(s), b, ValueId { id: 0 })
    }
}

/// Building the expressions one after the other, each value flowing into
/// `target` by the edge of its position in `tags`.
pub open spec fn run_edges(
    p: Program,
    args: spec_fn(FunctionArgumentRef) -> Option<ValueId>,
    ids: Seq<ExprId>,
    tags: Seq<DfgEdge>,
    bound: usize,
    s: FlowState,
    b: BlockId,
    target: ValueId,
) -> (FlowState, BlockId)
    decreases bound, 1nat, ids.len(), 0nat,
{
    if ids.len() == 0 {
        (s, b)
    } else if ids.last().id < bound {
        let r = run_edges(p, args, ids.drop_last(), tags, bound, s, b, target);
        let q = run_expr(p, args, ids.last(), r.0, r.1);
        (value_edge(q.0, q.2, target, tags[ids.len() - 1]), q.1)
    } else {
        (failed(s), b)
    }
}

/// Building the arms of a case: each arm's pattern from `b`, its body in a
/// new block after the pattern's, whose end leads to `next` and whose value
/// flows into `target`, both by the arm's position.
pub open spec fn run_cases(
    p: Program,
    args: spec_fn(FunctionArgumentRef) -> Option<ValueId>,
    cases: Seq<Case>,
    bound: usize,
    s: FlowState,
    b: BlockId,
    next: BlockId,
    target: ValueId,
) -> FlowState
    decreases bound, 1nat, cases.len(), 0nat,
{
    if cases.len() == 0 {
        s
    } else if cases.last().body.id < bound {
        let i = (cases.len() - 1) as usize;
        let s1 = run_cases(p, args, cases.drop_last(), bound, s, b, next, target);
        let q = run_pattern(p, args, cases.last().pattern_id, s1, b, bound);
        let r = run_block(p, args, cases.last().body, CfgEdge::Case(i), Some(q.1), q.0);
        value_edge(block_edge(r.0, r.1, next, CfgEdge::Case(i)), r.2, target, DfgEdge::Case(i))
    } else {
        failed(s)
    }
}

/// Building the graphs of the pattern `pid` in the block `b`: each binding
/// gets a new value, and a guard is evaluated after its pattern; the block
/// where control is then. Guards must have been made before `bound`.
pub open spec fn run_pattern(
    p: Program,
    args: spec_fn(FunctionArgumentRef) -> Option<ValueId>,
    pid: PatternId,
    s: FlowState,
    b: BlockId,
    bound: usize,
) -> (FlowState, BlockId)
    decreases bound, 0nat, pid.id + 1, 0nat,
{
    if !p.has_pattern(pid) {
        (failed(s), b)
    } else {
        match p.pattern(pid) {
            Pattern::Binding(_) => {
                let nv = new_value(s, ValueSource::Pattern(pid));
                (bind(nv.0, pid, nv.1), b)
            },
            Pattern::Guarded(item, guard) => if item.id < pid.id && guard.id < bound {
                let s1 = run_pattern(p, args, item, s, b, bound).0;
                let r = run_expr(p, args, guard, s1, b);
                (r.0, r.1)
            } else {
                (failed(s), b)
            },
            Pattern::Tuple(items) => (run_sub_patterns(p, args, items@, pid.id, bound, s, b), b),
            Pattern::Variant(_, _, items) => (run_sub_patterns(p, args, items@, pid.id, bound, s, b), b),
            Pattern::Record(_, items) => (run_sub_patterns(p, args, items@, pid.id, bound, s, b), b),
            Pattern::Typed(item, _) => if item.id < pid.id {
                run_pattern(p, args, item, s, b, bound)
            } else {
                (failed(s), b)
            },
            _ => (s, b),
        }
    }
}

/// Building the sub-patterns one after the other in the block `b`; they must
/// have been made before their pattern, numbered `parent`.
pub open spec fn run_sub_patterns(
    p: Program,
    args: spec_fn(FunctionArgumentRef) -> Option<ValueId>,
    ids: Seq<PatternId>,
    parent: usize,
    bound: usize,
    s: FlowState,
    b: BlockId,
) -> FlowState
    decreases bound, 0nat, parent, ids.len(),
{
    if ids.len() == 0 {
        s
    } else if ids.last().id < parent {
        let s1 = run_sub_patterns(p, args, ids.drop_last(), parent, bound, s, b);
        run_pattern(p, args, ids.last(), s1, b, bound).0
    } else {
        failed(s)
    }
}

/// What building never does: succeed after stopping, remove blocks or
/// values, or change the value edges already there.
pub open spec fn grows(a: FlowState, r: FlowState) -> bool {
    &&& r.ok ==> a.ok
    &&& r.blocks.len() >= a.blocks.len()
    &&& r.sources.len() >= a.sources.len()
    &&& a.value_edges.is_prefix_of(r.value_edges)
}

/// An `if` joins its branches: control goes on in a new, empty last block,
/// reached by a jump from the end of each branch; a new last value stands
/// for the `if`, fed by the value of each branch; and the value handed back
/// is the condition's, as the compiler gives it.
pub proof fn lemma_if_joins(
    p: Program,
    args: spec_fn(FunctionArgumentRef) -> Option<ValueId>,
    e: ExprId,
    s: FlowState,
    b: BlockId,
)
    requires
        p.has_expr(e),
        p.expr(e) is If,
        all_below(parts(p.expr(e)), e.id),
    ensures
        ({
            let r = run_expr(p, args, e, s, b);
            let c = p.expr(e)->If_0;
            let r1 = run_expr(p, args, c, s, b);
            let r2 = run_block(p, args, p.expr(e)->If_1, CfgEdge::If(true), Some(r1.1), r1.0);
            let r3 = run_block(p, args, p.expr(e)->If_2, CfgEdge::If(false), Some(r1.1), r2.0);
            let join = r.1;
            let v = r.0.value_edges.last().1;
            &&& r.2 == r1.2
            &&& r.0.blocks.len() >= 1
            &&& r.0.blocks.last() == Seq::<BlockElement>::empty()
            &&& r.0.blocks.len() <= usize::MAX ==> join.id == r.0.blocks.len() - 1
            &&& r.0.block_edges.len() >= 2
            &&& r.0.block_edges[r.0.block_edges.len() - 2] == (r2.1, join, CfgEdge::Jump)
            &&& r.0.block_edges.last() == (r3.1, join, CfgEdge::Jump)
            &&& r.0.value_edges.len() >= 2
            &&& r.0.value_edges[r.0.value_edges.len() - 2] == (r2.2, v, DfgEdge::If(true))
            &&& r.0.value_edges.last() == (r3.2, v, DfgEdge::If(false))
            &&& r.0.sources.len() >= 1
            &&& r.0.sources.last() == ValueSource::Expr(e)
            &&& r.0.sources.len() <= usize::MAX ==> v.id == r.0.sources.len() - 1
        }),
{
    let expr = p.expr(e);
    assert(parts(expr)[0] == expr->If_0 && parts(expr)[1] == expr->If_1 && parts(expr)[2] == expr->If_2);
}

/// Whether the value edges hold an edge into `target` tagged `tag`.
pub open spec fn has_edge_into(es: Seq<(ValueId, ValueId, DfgEdge)>, target: ValueId, tag: DfgEdge) -> bool {
    exists|i: int| 0 <= i < es.len() && es[i].1 == target && #[trigger] es[i].2 == tag
}

/// Building expressions with edges into `target` gives, for each of them,
/// an edge into `target` tagged with its tag.
pub proof fn lemma_edges_tagged(
    p: Program,
    args: spec_fn(FunctionArgumentRef) -> Option<ValueId>,
    ids: Seq<ExprId>,
    tags: Seq<DfgEdge>,
    bound: usize,
    s: FlowState,
    b: BlockId,
    target: ValueId,
)
    requires
        run_edges(p, args, ids, tags, bound, s, b, target).0.ok,
    ensures
        forall|k: int|
            0 <= k < ids.len() ==> #[trigger] has_edge_into(
                run_edges(p, args, ids, tags, bound, s, b, target).0.value_edges,
                target,
                tags[k],
            ),
    decreases ids.len(),
{
    if ids.len() > 0 && ids.last().id < bound {
        let r = run_edges(p, args, ids.drop_last(), tags, bound, s, b, target);
        let q = run_expr(p, args, ids.last(), r.0, r.1);
        let f = run_edges(p, args, ids, tags, bound, s, b, target);
        lemma_expr_grows(p, args, ids.last(), r.0, r.1);
        lemma_edges_tagged(p, args, ids.drop_last(), tags, bound, s, b, target);
        assert forall|k: int| 0 <= k < ids.len() implies #[trigger] has_edge_into(f.0.value_edges, target, tags[k]) by {
            if k < ids.len() - 1 {
                assert(has_edge_into(r.0.value_edges, target, tags[k]));
                let i = choose|i: int|
                    0 <= i < r.0.value_edges.len() && r.0.value_edges[i].1 == target && #[trigger] r.0.value_edges[i].2
                        == tags[k];
                assert(r.0.value_edges.is_prefix_of(q.0.value_edges));
                assert(q.0.value_edges.subrange(0, r.0.value_edges.len() as int)[i] == q.0.value_edges[i]);
                assert(q.0.value_edges[i] == r.0.value_edges[i]);
                assert(f.0.value_edges[i] == q.0.value_edges[i]);
                assert(f.0.value_edges[i].1 == target && f.0.value_edges[i].2 == tags[k]);
                assert(0 <= i < f.0.value_edges.len());
                assert(has_edge_into(f.0.value_edges, target, tags[k]));
            } else {
                let i = f.0.value_edges.len() - 1;
                assert(f.0.value_edges[i] == (q.2, target, tags[k]));
                assert(f.0.value_edges[i].1 == target && f.0.value_edges[i].2 == tags[k]);
                assert(has_edge_into(f.0.value_edges, target, tags[k]));
            }
        }
    }
}

/// Building the arms of a case gives, for the `k`-th arm, an edge tagged with
/// arm `k` into the case's value.
pub proof fn lemma_cases_tagged(
    p: Program,
    args: spec_fn(FunctionArgumentRef) -> Option<ValueId>,
    cases: Seq<Case>,
    bound: usize,
    s: FlowState,
    b: BlockId,
    next: BlockId,
    target: ValueId,
)
    requires
        run_cases(p, args, cases, bound, s, b, next, target).ok,
    ensures
        forall|k: int|
            0 <= k < cases.len() ==> #[trigger] has_edge_into(
                run_cases(p, args, cases, bound, s, b, next, target).value_edges,
                target,
                DfgEdge::Case(k as usize),
            ),
    decreases cases.len(),
{
    if cases.len() > 0 && cases.last().body.id < bound {
        let i = (cases.len() - 1) as usize;
        let s1 = run_cases(p, args, cases.drop_last(), bound, s, b, next, target);
        let q = run_pattern(p, args, cases.last().pattern_id, s1, b, bound);
        let r = run_block(p, args, cases.last().body, CfgEdge::Case(i), Some(q.1), q.0);
        let f = run_cases(p, args, cases, bound, s, b, next, target);
        lemma_pattern_grows(p, args, cases.last().pattern_id, s1, b, bound);
        lemma_block_grows(p, args, cases.last().body, CfgEdge::Case(i), Some(q.1), q.0);
        lemma_cases_tagged(p, args, cases.drop_last(), bound, s, b, next, target);
        assert forall|k: int| 0 <= k < cases.len() implies #[trigger] has_edge_into(
            f.value_edges,
            target,
            DfgEdge::Case(k as usize),
        ) by {
            if k < cases.len() - 1 {
                assert(has_edge_into(s1.value_edges, target, DfgEdge::Case(k as usize)));
                let j = choose|j: int|
                    0 <= j < s1.value_edges.len() && s1.value_edges[j].1 == target && #[trigger] s1.value_edges[j].2
                        == DfgEdge::Case(k as usize);
                assert(s1.value_edges.is_prefix_of(q.0.value_edges));
                assert(q.0.value_edges.is_prefix_of(r.0.value_edges));
                assert(q.0.value_edges.subrange(0, s1.value_edges.len() as int)[j] == q.0.value_edges[j]);
                assert(r.0.value_edges.subrange(0, q.0.value_edges.len() as int)[j] == r.0.value_edges[j]);
                assert(f.value_edges[j] == r.0.value_edges[j]);
                assert(f.value_edges[j].1 == target && f.value_edges[j].2 == DfgEdge::Case(k as usize));
                assert(has_edge_into(f.value_edges, target, DfgEdge::Case(k as usize)));
            } else {
                let j = f.value_edges.len() - 1;
                assert(f.value_edges[j] == (r.2, target, DfgEdge::Case(i)));
                assert(f.value_edges[j].1 == target && f.value_edges[j].2 == DfgEdge::Case(k as usize));
                assert(has_edge_into(f.value_edges, target, DfgEdge::Case(k as usize)));
            }
        }
    }
}

/// The value of a case expression is fed by its arms, the `k`-th arm by an
/// edge tagged with arm `k`.
pub proof fn lemma_case_arm_edges(
    p: Program,
    args: spec_fn(FunctionArgumentRef) -> Option<ValueId>,
    e: ExprId,
    s: FlowState,
    b: BlockId,
)
    requires
        p.has_expr(e),
        all_below(parts(p.expr(e)), e.id),
        run_expr(p, args, e, s, b).0.ok,
    ensures
        p.expr(e) matches Expr::CaseOf(_, cases) ==> forall|k: int|
            0 <= k < cases@.len() ==> #[trigger] has_edge_into(
                run_expr(p, args, e, s, b).0.value_edges,
                run_expr(p, args, e, s, b).2,
                DfgEdge::Case(k as usize),
            ),
{
    if let Expr::CaseOf(x, cases) = p.expr(e) {
        assert(parts(p.expr(e))[0] == x);
        let r = run_expr(p, args, x, s, b);
        let s1 = add_elem(r.0, r.1, BlockElement::Expr(e));
        let nb = new_block(s1);
        let nv = new_value(nb.0, ValueSource::Expr(e));
        let re = run_expr(p, args, e, s, b);
        assert(re.0 == run_cases(p, args, cases@, e.id, nv.0, r.1, nb.1, nv.1));
        assert(re.2 == nv.1);
        lemma_cases_tagged(p, args, cases@, e.id, nv.0, r.1, nb.1, nv.1);
    }
}

/// The value of a list literal is fed by its elements, the `k`-th element
/// by an edge tagged with position `k`; the value of a call is fed by its
/// arguments, the `k`-th by an edge tagged with argument position `k`; and
/// the value of a record literal by its field values, each tagged with the
/// position of its field in the record.
pub proof fn lemma_element_edges(
    p: Program,
    args: spec_fn(FunctionArgumentRef) -> Option<ValueId>,
    e: ExprId,
    s: FlowState,
    b: BlockId,
)
    requires
        p.has_expr(e),
        all_below(parts(p.expr(e)), e.id),
        run_expr(p, args, e, s, b).0.ok,
    ensures
        ({
            let r = run_expr(p, args, e, s, b);
            &&& p.expr(e) matches Expr::List(items) ==> forall|k: int|
                0 <= k < items@.len() ==> #[trigger] has_edge_into(
                    r.0.value_edges,
                    r.2,
                    DfgEdge::ListElement(k as usize),
                )
            &&& p.expr(e) matches Expr::StaticFunctionCall(_, call_args) ==> forall|k: int|
                0 <= k < call_args@.len() ==> #[trigger] has_edge_into(
                    r.0.value_edges,
                    r.2,
                    DfgEdge::FnArg(k as usize),
                )
            &&& p.expr(e) matches Expr::DynamicFunctionCall(_, call_args) ==> forall|k: int|
                0 <= k < call_args@.len() ==> #[trigger] has_edge_into(
                    r.0.value_edges,
                    r.2,
                    DfgEdge::FnArg(k as usize),
                )
            &&& p.expr(e) matches Expr::ClassFunctionCall(_, call_args) ==> forall|k: int|
                0 <= k < call_args@.len() ==> #[trigger] has_edge_into(
                    r.0.value_edges,
                    r.2,
                    DfgEdge::FnArg(k as usize),
                )
            &&& p.expr(e) matches Expr::RecordInitialization(_, items) ==> forall|k: int|
                0 <= k < items@.len() ==> #[trigger] has_edge_into(
                    r.0.value_edges,
                    r.2,
                    DfgEdge::RecordField(items@[k].index),
                )
        }),
{
    let nv = new_value(s, ValueSource::Expr(e));
    let r = run_expr(p, args, e, s, b);
    match p.expr(e) {
        Expr::List(items) => {
            let tags = list_tags(items@.len());
            let ids = items@;
            lemma_edges_tagged(p, args, ids, tags, e.id, nv.0, b, nv.1);
            let re = run_edges(p, args, ids, tags, e.id, nv.0, b, nv.1);
            assert forall|k: int| 0 <= k < items@.len() implies #[trigger] has_edge_into(
                r.0.value_edges,
                r.2,
                DfgEdge::ListElement(k as usize),
            ) by {
                assert(tags[k] == DfgEdge::ListElement(k as usize));
                assert(has_edge_into(re.0.value_edges, nv.1, tags[k]));
            }
        },
        Expr::StaticFunctionCall(_, call_args) => {
            let tags = fn_arg_tags(call_args@.len());
            let ids = call_args@;
            lemma_edges_tagged(p, args, ids, tags, e.id, nv.0, b, nv.1);
            let re = run_edges(p, args, ids, tags, e.id, nv.0, b, nv.1);
            assert forall|k: int| 0 <= k < call_args@.len() implies #[trigger] has_edge_into(
                r.0.value_edges,
                r.2,
                DfgEdge::FnArg(k as usize),
            ) by {
                assert(tags[k] == DfgEdge::FnArg(k as usize));
                assert(has_edge_into(re.0.value_edges, nv.1, tags[k]));
            }
        },
        Expr::DynamicFunctionCall(_, call_args) => {
            let tags = fn_arg_tags(call_args@.len());
            let ids = call_args@;
            lemma_edges_tagged(p, args, ids, tags, e.id, nv.0, b, nv.1);
            let re = run_edges(p, args, ids, tags, e.id, nv.0, b, nv.1);
            assert forall|k: int| 0 <= k < call_args@.len() implies #[trigger] has_edge_into(
                r.0.value_edges,
                r.2,
                DfgEdge::FnArg(k as usize),
            ) by {
                assert(tags[k] == DfgEdge::FnArg(k as usize));
                assert(has_edge_into(re.0.value_edges, nv.1, tags[k]));
            }
        },
        Expr::ClassFunctionCall(_, call_args) => {
            let tags = fn_arg_tags(call_args@.len());
            let ids = call_args@;
            lemma_edges_tagged(p, args, ids, tags, e.id, nv.0, b, nv.1);
            let re = run_edges(p, args, ids, tags, e.id, nv.0, b, nv.1);
            assert forall|k: int| 0 <= k < call_args@.len() implies #[trigger] has_edge_into(
                r.0.value_edges,
                r.2,
                DfgEdge::FnArg(k as usize),
            ) by {
                assert(tags[k] == DfgEdge::FnArg(k as usize));
                assert(has_edge_into(re.0.value_edges, nv.1, tags[k]));
            }
        },
        Expr::RecordInitialization(_, items) => {
            let tags = record_tags(items@);
            let ids = field_ids(items@);
            lemma_edges_tagged(p, args, ids, tags, e.id, nv.0, b, nv.1);
            let re = run_edges(p, args, ids, tags, e.id, nv.0, b, nv.1);
            assert forall|k: int| 0 <= k < items@.len() implies #[trigger] has_edge_into(
                r.0.value_edges,
                r.2,
                DfgEdge::RecordField(items@[k].index),
            ) by {
                assert(tags[k] == DfgEdge::RecordField(items@[k].index));
                assert(has_edge_into(re.0.value_edges, nv.1, tags[k]));
            }
        },
        _ => {},
    }
}

/// Building an expression only grows the state.
pub proof fn lemma_expr_grows(
    p: Program,
    args: spec_fn(FunctionArgumentRef) -> Option<ValueId>,
    e: ExprId,
    s: FlowState,
    b: BlockId,
)
    ensures
        grows(s, run_expr(p, args, e, s, b).0),
    decreases e.id, 2nat, 0nat, 0nat,
{
    let expr = p.expr(e);
    if p.has_expr(e) && all_below(parts(expr), e.id) {
        match expr {
            Expr::Bind(pid, rhs) => {
                assert(parts(expr)[0] == rhs);
                lemma_expr_grows(p, args, rhs, s, b);
                let r = run_expr(p, args, rhs, s, b);
                lemma_pattern_grows(p, args, pid, r.0, r.1, e.id);
            },
            Expr::CaseOf(x, cases) => {
                assert(parts(expr)[0] == x);
                lemma_expr_grows(p, args, x, s, b);
                let r = run_expr(p, args, x, s, b);
                let s1 = add_elem(r.0, r.1, BlockElement::Expr(e));
                let nb = new_block(s1);
                let nv = new_value(nb.0, ValueSource::Expr(e));
                lemma_cases_grows(p, args, cases@, e.id, nv.0, r.1, nb.1, nv.1);
            },
            Expr::ClassFunctionCall(_, call_args) => {
                let nv = new_value(s, ValueSource::Expr(e));
                lemma_edges_grows(p, args, call_args@, fn_arg_tags(call_args@.len()), e.id, nv.0, b, nv.1);
            },
            Expr::DynamicFunctionCall(_, call_args) => {
                let nv = new_value(s, ValueSource::Expr(e));
                lemma_edges_grows(p, args, call_args@, fn_arg_tags(call_args@.len()), e.id, nv.0, b, nv.1);
            },
            Expr::StaticFunctionCall(_, call_args) => {
                let nv = new_value(s, ValueSource::Expr(e));
                lemma_edges_grows(p, args, call_args@, fn_arg_tags(call_args@.len()), e.id, nv.0, b, nv.1);
            },
            Expr::Do(items) => if items@.len() != 0 {
                let s1 = add_elem(s, b, BlockElement::Expr(e));
                let nb = new_block(s1);
                let s2 = block_edge(nb.0, b, nb.1, CfgEdge::Jump);
                lemma_plain_grows(p, args, items@, e.id, s2, nb.1);
            },
            Expr::FieldAccess(infos, receiver) => if infos@.len() == 1 {
                assert(parts(expr)[0] == receiver);
                lemma_expr_grows(p, args, receiver, s, b);
            },
            Expr::Formatter(_, items) => {
                lemma_plain_grows(p, args, items@, e.id, s, b);
            },
            Expr::Tuple(items) => {
                lemma_plain_grows(p, args, items@, e.id, s, b);
            },
            Expr::If(c, t, f) => {
                assert(parts(expr)[0] == c && parts(expr)[1] == t && parts(expr)[2] == f);
                lemma_expr_grows(p, args, c, s, b);
                let r1 = run_expr(p, args, c, s, b);
                lemma_block_grows(p, args, t, CfgEdge::If(true), Some(r1.1), r1.0);
                let r2 = run_block(p, args, t, CfgEdge::If(true), Some(r1.1), r1.0);
                lemma_block_grows(p, args, f, CfgEdge::If(false), Some(r1.1), r2.0);
            },
            Expr::List(items) => {
                let nv = new_value(s, ValueSource::Expr(e));
                lemma_edges_grows(p, args, items@, list_tags(items@.len()), e.id, nv.0, b, nv.1);
            },
            Expr::RecordInitialization(_, items) => {
                let nv = new_value(s, ValueSource::Expr(e));
                lemma_edges_grows(p, args, field_ids(items@), record_tags(items@), e.id, nv.0, b, nv.1);
            },
            Expr::RecordUpdate(receiver, updates) => {
                assert(parts(expr)[0] == receiver);
                lemma_expr_grows(p, args, receiver, s, b);
                let r = run_expr(p, args, receiver, s, b);
                let nv = new_value(r.0, ValueSource::Expr(e));
                let s2 = value_edge(nv.0, r.2, nv.1, DfgEdge::RecordUpdateSource);
                if updates@.len() == 1 {
                    let items = updates@[0].items@;
                    lemma_edges_grows(p, args, field_ids(items), record_tags(items), e.id, s2, r.1, nv.1);
                }
            },
            Expr::TupleFieldAccess(_, receiver) => {
                assert(parts(expr)[0] == receiver);
                lemma_expr_grows(p, args, receiver, s, b);
            },
            _ => {},
        }
    }
}

/// Building an expression in a new block only grows the state, by a block at least.
pub proof fn lemma_block_grows(
    p: Program,
    args: spec_fn(FunctionArgumentRef) -> Option<ValueId>,
    e: ExprId,
    edge: CfgEdge,
    source: Option<BlockId>,
    s: FlowState,
)
    ensures
        grows(s, run_block(p, args, e, edge, source, s).0),
        run_block(p, args, e, edge, source, s).0.blocks.len() > s.blocks.len(),
    decreases e.id, 3nat, 0nat, 0nat,
{
    let nb = new_block(s);
    let s2 = match source {
        Some(src) => block_edge(nb.0, src, nb.1, edge),
        None => nb.0,
    };
    lemma_expr_grows(p, args, e, s2, nb.1);
}

/// Building expressions one after the other only grows the state.
pub proof fn lemma_plain_grows(
    p: Program,
    args: spec_fn(FunctionArgumentRef) -> Option<ValueId>,
    ids: Seq<ExprId>,
    bound: usize,
    s: FlowState,
    b: BlockId,
)
    ensures
        grows(s, run_plain(p, args, ids, bound, s, b).0),
    decreases bound, 1nat, ids.len(), 0nat,
{
    if ids.len() > 0 && ids.last().id < bound {
        lemma_plain_grows(p, args, ids.drop_last(), bound, s, b);
        let r = run_plain(p, args, ids.drop_last(), bound, s, b);
        lemma_expr_grows(p, args, ids.last(), r.0, r.1);
    }
}

/// Building expressions with value edges only grows the state.
pub proof fn lemma_edges_grows(
    p: Program,
    args: spec_fn(FunctionArgumentRef) -> Option<ValueId>,
    ids: Seq<ExprId>,
    tags: Seq<DfgEdge>,
    bound: usize,
    s: FlowState,
    b: BlockId,
    target: ValueId,
)
    ensures
        grows(s, run_edges(p, args, ids, tags, bound, s, b, target).0),
    decreases bound, 1nat, ids.len(), 0nat,
{
    if ids.len() > 0 && ids.last().id < bound {
        lemma_edges_grows(p, args, ids.drop_last(), tags, bound, s, b, target);
        let r = run_edges(p, args, ids.drop_last(), tags, bound, s, b, target);
        lemma_expr_grows(p, args, ids.last(), r.0, r.1);
    }
}

/// Building the arms of a case only grows the state.
pub proof fn lemma_cases_grows(
    p: Program,
    args: spec_fn(FunctionArgumentRef) -> Option<ValueId>,
    cases: Seq<Case>,
    bound: usize,
    s: FlowState,
    b: BlockId,
    next: BlockId,
    target: ValueId,
)
    ensures
        grows(s, run_cases(p, args, cases, bound, s, b, next, target)),
    decreases bound, 1nat, cases.len(), 0nat,
{
    if cases.len() > 0 && cases.last().body.id < bound {
        let i = (cases.len() - 1) as usize;
        lemma_cases_grows(p, args, cases.drop_last(), bound, s, b, next, target);
        let s1 = run_cases(p, args, cases.drop_last(), bound, s, b, next, target);
        lemma_pattern_grows(p, args, cases.last().pattern_id, s1, b, bound);
        let q = run_pattern(p, args, cases.last().pattern_id, s1, b, bound);
        lemma_block_grows(p, args, cases.last().body, CfgEdge::Case(i), Some(q.1), q.0);
    }
}

/// Building a pattern only grows the state.
pub proof fn lemma_pattern_grows(
    p: Program,
    args: spec_fn(FunctionArgumentRef) -> Option<ValueId>,
    pid: PatternId,
    s: FlowState,
    b: BlockId,
    bound: usize,
)
    ensures
        grows(s, run_pattern(p, args, pid, s, b, bound).0),
    decreases bound, 0nat, pid.id + 1, 0nat,
{
    if p.has_pattern(pid) {
        match p.pattern(pid) {
            Pattern::Guarded(item, guard) => if item.id < pid.id && guard.id < bound {
                lemma_pattern_grows(p, args, item, s, b, bound);
                let s1 = run_pattern(p, args, item, s, b, bound).0;
                lemma_expr_grows(p, args, guard, s1, b);
            },
            Pattern::Tuple(items) => lemma_sub_patterns_grows(p, args, items@, pid.id, bound, s, b),
            Pattern::Variant(_, _, items) => lemma_sub_patterns_grows(p, args, items@, pid.id, bound, s, b),
            Pattern::Record(_, items) => lemma_sub_patterns_grows(p, args, items@, pid.id, bound, s, b),
            Pattern::Typed(item, _) => if item.id < pid.id {
                lemma_pattern_grows(p, args, item, s, b, bound);
            },
            _ => {},
        }
    }
}

/// Building sub-patterns only grows the state.
pub proof fn lemma_sub_patterns_grows(
    p: Program,
    args: spec_fn(FunctionArgumentRef) -> Option<ValueId>,
    ids: Seq<PatternId>,
    parent: usize,
    bound: usize,
    s: FlowState,
    b: BlockId,
)
    ensures
        grows(s, run_sub_patterns(p, args, ids, parent, bound, s, b)),
    decreases bound, 0nat, parent, ids.len(),
{
    if ids.len() > 0 && ids.last().id < parent {
        lemma_sub_patterns_grows(p, args, ids.drop_last(), parent, bound, s, b);
        let s1 = run_sub_patterns(p, args, ids.drop_last(), parent, bound, s, b);
        lemma_pattern_grows(p, args, ids.last(), s1, b, bound);
    }
}

/// Where building all the expressions succeeds, building the first `k`
/// succeeds too and leaves no more blocks or values.
pub proof fn lemma_plain_prefix(
    p: Program,
    args: spec_fn(FunctionArgumentRef) -> Option<ValueId>,
    ids: Seq<ExprId>,
    k: int,
    bound: usize,
    s: FlowState,
    b: BlockId,
)
    requires
        0 <= k <= ids.len(),
        run_plain(p, args, ids, bound, s, b).0.ok,
    ensures
        grows(run_plain(p, args, ids.subrange(0, k), bound, s, b).0, run_plain(p, args, ids, bound, s, b).0),
    decreases ids.len() - k,
{
    if k < ids.len() {
        let r = run_plain(p, args, ids.drop_last(), bound, s, b);
        lemma_expr_grows(p, args, ids.last(), r.0, r.1);
        lemma_plain_prefix(p, args, ids.drop_last(), k, bound, s, b);
        assert(ids.drop_last().subrange(0, k) =~= ids.subrange(0, k));
    } else {
        assert(ids.subrange(0, k) =~= ids);
    }
}

/// Where building all the expressions with edges succeeds, building the first
/// `k` succeeds too and leaves no more blocks or values.
pub proof fn lemma_edges_prefix(
    p: Program,
    args: spec_fn(FunctionArgumentRef) -> Option<ValueId>,
    ids: Seq<ExprId>,
    tags: Seq<DfgEdge>,
    k: int,
    bound: usize,
    s: FlowState,
    b: BlockId,
    target: ValueId,
)
    requires
        0 <= k <= ids.len(),
        run_edges(p, args, ids, tags, bound, s, b, target).0.ok,
    ensures
        grows(run_edges(p, args, ids.subrange(0, k), tags, bound, s, b, target).0, run_edges(p, args, ids, tags, bound, s, b, target).0),
    decreases ids.len() - k,
{
    if k < ids.len() {
        let r = run_edges(p, args, ids.drop_last(), tags, bound, s, b, target);
        lemma_expr_grows(p, args, ids.last(), r.0, r.1);
        lemma_edges_prefix(p, args, ids.drop_last(), tags, k, bound, s, b, target);
        assert(ids.drop_last().subrange(0, k) =~= ids.subrange(0, k));
    } else {
        assert(ids.subrange(0, k) =~= ids);
    }
}

/// Where building all the arms succeeds, building the first `k` succeeds too
/// and leaves no more blocks or values.
pub proof fn lemma_cases_prefix(
    p: Program,
    args: spec_fn(FunctionArgumentRef) -> Option<ValueId>,
    cases: Seq<Case>,
    k: int,
    bound: usize,
    s: FlowState,
    b: BlockId,
    next: BlockId,
    target: ValueId,
)
    requires
        0 <= k <= cases.len(),
        run_cases(p, args, cases, bound, s, b, next, target).ok,
    ensures
        grows(run_cases(p, args, cases.subrange(0, k), bound, s, b, next, target), run_cases(p, args, cases, bound, s, b, next, target)),
    decreases cases.len() - k,
{
    if k < cases.len() {
        let i = (cases.len() - 1) as usize;
        let s1 = run_cases(p, args, cases.drop_last(), bound, s, b, next, target);
        lemma_pattern_grows(p, args, cases.last().pattern_id, s1, b, bound);
        let q = run_pattern(p, args, cases.last().pattern_id, s1, b, bound);
        lemma_block_grows(p, args, cases.last().body, CfgEdge::Case(i), Some(q.1), q.0);
        lemma_cases_prefix(p, args, cases.drop_last(), k, bound, s, b, next, target);
        assert(cases.drop_last().subrange(0, k) =~= cases.subrange(0, k));
    } else {
        assert(cases.subrange(0, k) =~= cases);
    }
}

/// Where building all the sub-patterns succeeds, building the first `k`
/// succeeds too and leaves no more blocks or values.
pub proof fn lemma_sub_patterns_prefix(
    p: Program,
    args: spec_fn(FunctionArgumentRef) -> Option<ValueId>,
    ids: Seq<PatternId>,
    k: int,
    parent: usize,
    bound: usize,
    s: FlowState,
    b: BlockId,
)
    requires
        0 <= k <= ids.len(),
        run_sub_patterns(p, args, ids, parent, bound, s, b).ok,
    ensures
        grows(run_sub_patterns(p, args, ids.subrange(0, k), parent, bound, s, b), run_sub_patterns(p, args, ids, parent, bound, s, b)),
    decreases ids.len() - k,
{
    if k < ids.len() {
        let s1 = run_sub_patterns(p, args, ids.drop_last(), parent, bound, s, b);
        lemma_pattern_grows(p, args, ids.last(), s1, b, bound);
        lemma_sub_patterns_prefix(p, args, ids.drop_last(), k, parent, bound, s, b);
        assert(ids.drop_last().subrange(0, k) =~= ids.subrange(0, k));
    } else {
        assert(ids.subrange(0, k) =~= ids);
    }
}

/// The values of the variables that an environment sees.
pub open spec fn env_vars<'a>(env: &Environment<'a>) -> Map<PatternId, ValueId> {
    Map::new(|v: PatternId| env.lookup(v) is Some, |v: PatternId| env.lookup(v)->Some_0)
}

/// The values of the function arguments that an environment sees.
pub open spec fn arg_fn<'a>(env: &Environment<'a>) -> spec_fn(FunctionArgumentRef) -> Option<ValueId> {
    |a: FunctionArgumentRef| env.arg_lookup(a)
}

/// The graphs and the environment as a building state.
pub open spec fn state_of<'a>(cfg: &ControlFlowGraph, dfg: &DataflowGraph, env: &Environment<'a>) -> FlowState {
    FlowState {
        ok: true,
        blocks: cfg.blocks(),
        block_edges: cfg.edges(),
        sources: dfg.sources(),
        value_edges: dfg.edges(),
        vars: env_vars(env),
    }
}

/// A building state that succeeded within the machine's limits.
pub open spec fn fits(r: FlowState) -> bool {
    &&& r.ok
    &&& r.blocks.len() <= usize::MAX
    &&& r.sources.len() <= usize::MAX
}

/// The edges from the arguments of a call, by position.
fn make_fn_arg_tags(n: usize) -> (r: Vec<DfgEdge>)
    ensures
        r@ == fn_arg_tags(n as nat),
{
    let mut v: Vec<DfgEdge> = Vec::new();
    let mut i: usize = 0;
    while i < n
        invariant
            i <= n,
            v@ == fn_arg_tags(i as nat),
        decreases n - i,
    {
        v.push(DfgEdge::FnArg(i));
        i += 1;
        assert(v@ =~= fn_arg_tags(i as nat));
    }
    v
}

/// The edges from the elements of a list, by position.
fn make_list_tags(n: usize) -> (r: Vec<DfgEdge>)
    ensures
        r@ == list_tags(n as nat),
{
    let mut v: Vec<DfgEdge> = Vec::new();
    let mut i: usize = 0;
    while i < n
        invariant
            i <= n,
            v@ == list_tags(i as nat),
        decreases n - i,
    {
        v.push(DfgEdge::ListElement(i));
        i += 1;
        assert(v@ =~= list_tags(i as nat));
    }
    v
}

/// The edges from the field values of a record, by field position.
fn make_record_tags(items: &Vec<RecordFieldValueExpr>) -> (r: Vec<DfgEdge>)
    ensures
        r@ == record_tags(items@),
{
    let mut v: Vec<DfgEdge> = Vec::new();
    let mut i: usize = 0;
    while i < items.len()
        invariant
            i <= items@.len(),
            v@ == record_tags(items@).subrange(0, i as int),
        decreases items@.len() - i,
    {
        v.push(DfgEdge::RecordField(items[i].index));
        i += 1;
        assert(v@ =~= record_tags(items@).subrange(0, i as int));
    }
    assert(record_tags(items@).subrange(0, i as int) =~= record_tags(items@));
    v
}

/// Adds the pattern `pattern_id` to the graphs in the block `block_id` (see
/// [`run_pattern`]); returns the block where control is after it.
fn process_pattern<'a>(
    pattern_id: PatternId,
    program: &Program,
    block_id: BlockId,
    Ghost(bound): Ghost<usize>,
    cfg: &mut ControlFlowGraph,
    dfg: &mut DataflowGraph,
    environment: &mut Environment<'a>,
) -> (r: BlockId)
    requires
        old(cfg).wf(),
        old(dfg).wf(),
        old(cfg).has_block(block_id),
        fits(run_pattern(*program, arg_fn(old(environment)), pattern_id, state_of(old(cfg), old(dfg), old(environment)), block_id, bound).0),
    ensures
        final(cfg).wf(),
        final(dfg).wf(),
        final(cfg).has_block(r),
        arg_fn(final(environment)) == arg_fn(old(environment)),
        final(cfg).name() == old(cfg).name(),
        final(dfg).name() == old(dfg).name(),
        run_pattern(*program, arg_fn(old(environment)), pattern_id, state_of(old(cfg), old(dfg), old(environment)), block_id, bound)
            == (state_of(final(cfg), final(dfg), final(environment)), r),
    decreases bound, 0nat, pattern_id.id + 1, 0nat,
{
    let ghost p = *program;
    let ghost ar = arg_fn(environment);
    let ghost s0 = state_of(cfg, dfg, environment);
    proof {
        lemma_pattern_grows(p, ar, pattern_id, s0, block_id, bound);
    }
    let pattern = program.get_pattern(pattern_id);
    match pattern {
        Pattern::Binding(_) => {
            let value_id = dfg.create_value(ValueSource::Pattern(pattern_id));
            environment.add(pattern_id, value_id);
            proof {
                assert(env_vars(environment) =~= s0.vars.insert(pattern_id, value_id));
                assert(arg_fn(environment) =~= ar);
            }
            block_id
        },
        Pattern::Guarded(item, guard_expr) => {
            proof {
                let s1 = run_pattern(p, ar, *item, s0, block_id, bound).0;
                lemma_pattern_grows(p, ar, *item, s0, block_id, bound);
                lemma_expr_grows(p, ar, *guard_expr, s1, block_id);
            }
            process_pattern(*item, program, block_id, Ghost(bound), cfg, dfg, environment);
            let (b, _) = process_expr(*guard_expr, program, block_id, cfg, dfg, environment);
            b
        },
        Pattern::Tuple(items) => {
            process_sub_patterns(items, program, block_id, Ghost(pattern_id.id), Ghost(bound), cfg, dfg, environment);
            block_id
        },
        Pattern::Variant(_, _, items) => {
            process_sub_patterns(items, program, block_id, Ghost(pattern_id.id), Ghost(bound), cfg, dfg, environment);
            block_id
        },
        Pattern::Record(_, items) => {
            process_sub_patterns(items, program, block_id, Ghost(pattern_id.id), Ghost(bound), cfg, dfg, environment);
            block_id
        },
        Pattern::Typed(item, _) => process_pattern(*item, program, block_id, Ghost(bound), cfg, dfg, environment),
        _ => block_id,
    }
}

/// Adds the sub-patterns one after the other in the block `block_id`.
fn process_sub_patterns<'a>(
    items: &Vec<PatternId>,
    program: &Program,
    block_id: BlockId,
    Ghost(parent): Ghost<usize>,
    Ghost(bound): Ghost<usize>,
    cfg: &mut ControlFlowGraph,
    dfg: &mut DataflowGraph,
    environment: &mut Environment<'a>,
)
    requires
        old(cfg).wf(),
        old(dfg).wf(),
        old(cfg).has_block(block_id),
        fits(run_sub_patterns(*program, arg_fn(old(environment)), items@, parent, bound, state_of(old(cfg), old(dfg), old(environment)), block_id)),
    ensures
        final(cfg).wf(),
        final(dfg).wf(),
        arg_fn(final(environment)) == arg_fn(old(environment)),
        final(cfg).name() == old(cfg).name(),
        final(dfg).name() == old(dfg).name(),
        run_sub_patterns(*program, arg_fn(old(environment)), items@, parent, bound, state_of(old(cfg), old(dfg), old(environment)), block_id)
            == state_of(final(cfg), final(dfg), final(environment)),
    decreases bound, 0nat, parent, 1nat,
{
    let ghost p = *program;
    let ghost ar = arg_fn(environment);
    let ghost s0 = state_of(cfg, dfg, environment);
    let ghost total = run_sub_patterns(p, ar, items@, parent, bound, s0, block_id);
    let mut i: usize = 0;
    proof {
        assert(items@.subrange(0, 0) =~= Seq::<PatternId>::empty());
    }
    while i < items.len()
        invariant
            i <= items@.len(),
            p == *program,
            fits(total),
            total == run_sub_patterns(p, ar, items@, parent, bound, s0, block_id),
            cfg.wf(),
            dfg.wf(),
            cfg.has_block(block_id),
            arg_fn(environment) == ar,
            cfg.name() == old(cfg).name(),
            dfg.name() == old(dfg).name(),
            state_of(cfg, dfg, environment) == run_sub_patterns(p, ar, items@.subrange(0, i as int), parent, bound, s0, block_id),
        decreases items@.len() - i,
    {
        proof {
            let sub = items@.subrange(0, i + 1);
            assert(sub.drop_last() =~= items@.subrange(0, i as int));
            assert(sub.last() == items@[i as int]);
            lemma_sub_patterns_prefix(p, ar, items@, i + 1, parent, bound, s0, block_id);
            let s1 = run_sub_patterns(p, ar, items@.subrange(0, i as int), parent, bound, s0, block_id);
            lemma_pattern_grows(p, ar, items@[i as int], s1, block_id, bound);
        }
        process_pattern(items[i], program, block_id, Ghost(bound), cfg, dfg, environment);
        i += 1;
    }
    proof {
        assert(items@.subrange(0, i as int) =~= items@);
    }
}

/// Adds the expression `expr_id` to the graphs, starting in the block
/// `block_id` (see [`run_expr`]); returns the block where control is after it
/// and the value of the expression.
fn process_expr<'a>(
    expr_id: ExprId,
    program: &Program,
    block_id: BlockId,
    cfg: &mut ControlFlowGraph,
    dfg: &mut DataflowGraph,
    environment: &mut Environment<'a>,
) -> (r: (BlockId, ValueId))
    requires
        old(cfg).wf(),
        old(dfg).wf(),
        old(cfg).has_block(block_id),
        fits(run_expr(*program, arg_fn(old(environment)), expr_id, state_of(old(cfg), old(dfg), old(environment)), block_id).0),
    ensures
        final(cfg).wf(),
        final(dfg).wf(),
        arg_fn(final(environment)) == arg_fn(old(environment)),
        final(cfg).name() == old(cfg).name(),
        final(dfg).name() == old(dfg).name(),
        final(cfg).has_block(r.0),
        run_expr(*program, arg_fn(old(environment)), expr_id, state_of(old(cfg), old(dfg), old(environment)), block_id)
            == (state_of(final(cfg), final(dfg), final(environment)), r.0, r.1),
    decreases expr_id.id, 2nat, 0nat, 0nat,
{
    let ghost p = *program;
    let ghost ar = arg_fn(environment);
    let ghost s0 = state_of(cfg, dfg, environment);
    let ghost total = run_expr(p, ar, expr_id, s0, block_id);
    proof {
        lemma_expr_grows(p, ar, expr_id, s0, block_id);
    }
    let expr = program.get_expr(expr_id);
    proof {
        assert(all_below(parts(*expr), expr_id.id));
    }
    match expr {
        Expr::ArgRef(arg_ref) => {
            cfg.add_expr_to_block(block_id, expr_id);
            let value_id = environment.get_arg(arg_ref);
            (block_id, value_id)
        },
        Expr::Bind(pattern_id, rhs) => {
            proof {
                assert(parts(*expr)[0] == *rhs);
                lemma_expr_grows(p, ar, *rhs, s0, block_id);
                let r = run_expr(p, ar, *rhs, s0, block_id);
                lemma_pattern_grows(p, ar, *pattern_id, r.0, r.1, expr_id.id);
            }
            let (b, value_id) = process_expr(*rhs, program, block_id, cfg, dfg, environment);
            process_pattern(*pattern_id, program, b, Ghost(expr_id.id), cfg, dfg, environment);
            cfg.add_expr_to_block(b, expr_id);
            (b, value_id)
        },
        Expr::CaseOf(case_expr, cases) => {
            proof {
                assert(parts(*expr)[0] == *case_expr);
                lemma_expr_grows(p, ar, *case_expr, s0, block_id);
                let r = run_expr(p, ar, *case_expr, s0, block_id);
                let s1 = add_elem(r.0, r.1, BlockElement::Expr(expr_id));
                let nb = new_block(s1);
                let nv = new_value(nb.0, ValueSource::Expr(expr_id));
                lemma_cases_grows(p, ar, cases@, expr_id.id, nv.0, r.1, nb.1, nv.1);
            }
            let (b, _) = process_expr(*case_expr, program, block_id, cfg, dfg, environment);
            cfg.add_expr_to_block(b, expr_id);
            let next = cfg.create_block();
            let next_value = dfg.create_value(ValueSource::Expr(expr_id));
            process_cases(cases, program, b, next, next_value, Ghost(expr_id.id), cfg, dfg, environment);
            (next, next_value)
        },
        Expr::ClassFunctionCall(_, args) => {
            let tags = make_fn_arg_tags(args.len());
            proof {
                let nv = new_value(s0, ValueSource::Expr(expr_id));
                lemma_edges_grows(p, ar, args@, tags@, expr_id.id, nv.0, block_id, nv.1);
            }
            let next_value = dfg.create_value(ValueSource::Expr(expr_id));
            let b = process_edges(args, &tags, program, block_id, next_value, Ghost(expr_id.id), cfg, dfg, environment);
            cfg.add_expr_to_block(b, expr_id);
            (b, next_value)
        },
        Expr::DynamicFunctionCall(_, args) => {
            let tags = make_fn_arg_tags(args.len());
            proof {
                let nv = new_value(s0, ValueSource::Expr(expr_id));
                lemma_edges_grows(p, ar, args@, tags@, expr_id.id, nv.0, block_id, nv.1);
            }
            let next_value = dfg.create_value(ValueSource::Expr(expr_id));
            let b = process_edges(args, &tags, program, block_id, next_value, Ghost(expr_id.id), cfg, dfg, environment);
            cfg.add_expr_to_block(b, expr_id);
            (b, next_value)
        },
        Expr::StaticFunctionCall(_, args) => {
            let tags = make_fn_arg_tags(args.len());
            proof {
                let nv = new_value(s0, ValueSource::Expr(expr_id));
                lemma_edges_grows(p, ar, args@, tags@, expr_id.id, nv.0, block_id, nv.1);
            }
            let next_value = dfg.create_value(ValueSource::Expr(expr_id));
            let b = process_edges(args, &tags, program, block_id, next_value, Ghost(expr_id.id), cfg, dfg, environment);
            cfg.add_expr_to_block(b, expr_id);
            (b, next_value)
        },
        Expr::List(items) => {
            let tags = make_list_tags(items.len());
            proof {
                let nv = new_value(s0, ValueSource::Expr(expr_id));
                lemma_edges_grows(p, ar, items@, tags@, expr_id.id, nv.0, block_id, nv.1);
            }
            let next_value = dfg.create_value(ValueSource::Expr(expr_id));
            let b = process_edges(items, &tags, program, block_id, next_value, Ghost(expr_id.id), cfg, dfg, environment);
            cfg.add_expr_to_block(b, expr_id);
            (b, next_value)
        },
        Expr::RecordInitialization(_, items) => {
            let ids = crate::cfg::ControlFlowGraph::field_expr_ids(items);
            let tags = make_record_tags(items);
            proof {
                let nv = new_value(s0, ValueSource::Expr(expr_id));
                lemma_edges_grows(p, ar, ids@, tags@, expr_id.id, nv.0, block_id, nv.1);
            }
            let next_value = dfg.create_value(ValueSource::Expr(expr_id));
            let b = process_edges(&ids, &tags, program, block_id, next_value, Ghost(expr_id.id), cfg, dfg, environment);
            cfg.add_expr_to_block(b, expr_id);
            (b, next_value)
        },
        Expr::Do(items) => {
            proof {
                let s1 = add_elem(s0, block_id, BlockElement::Expr(expr_id));
                let nb = new_block(s1);
                let s2 = block_edge(nb.0, block_id, nb.1, CfgEdge::Jump);
                lemma_plain_grows(p, ar, items@, expr_id.id, s2, nb.1);
            }
            cfg.add_expr_to_block(block_id, expr_id);
            let next = cfg.create_block();
            cfg.add_edge(block_id, next, CfgEdge::Jump);
            let (b, value_id) = process_plain(items, program, next, Ghost(expr_id.id), cfg, dfg, environment);
            cfg.add_terminator_to_block(b, expr_id);
            (b, value_id)
        },
        Expr::ExprValue(_, pattern_id) => {
            let value_id = environment.get_value(pattern_id);
            cfg.add_expr_to_block(block_id, expr_id);
            (block_id, value_id)
        },
        Expr::FieldAccess(_, receiver) => {
            proof {
                assert(parts(*expr)[0] == *receiver);
                lemma_expr_grows(p, ar, *receiver, s0, block_id);
            }
            let (b, _) = process_expr(*receiver, program, block_id, cfg, dfg, environment);
            let value_id = dfg.create_value(ValueSource::Expr(expr_id));
            cfg.add_expr_to_block(b, expr_id);
            (b, value_id)
        },
        Expr::TupleFieldAccess(_, receiver) => {
            proof {
                assert(parts(*expr)[0] == *receiver);
                lemma_expr_grows(p, ar, *receiver, s0, block_id);
            }
            let (b, _) = process_expr(*receiver, program, block_id, cfg, dfg, environment);
            let value_id = dfg.create_value(ValueSource::Expr(expr_id));
            cfg.add_expr_to_block(b, expr_id);
            (b, value_id)
        },
        Expr::Formatter(_, args) => {
            proof {
                lemma_plain_grows(p, ar, args@, expr_id.id, s0, block_id);
            }
            let (b, _) = process_plain(args, program, block_id, Ghost(expr_id.id), cfg, dfg, environment);
            let value_id = dfg.create_value(ValueSource::Expr(expr_id));
            cfg.add_expr_to_block(b, expr_id);
            (b, value_id)
        },
        Expr::Tuple(items) => {
            proof {
                lemma_plain_grows(p, ar, items@, expr_id.id, s0, block_id);
            }
            let (b, _) = process_plain(items, program, block_id, Ghost(expr_id.id), cfg, dfg, environment);
            let value_id = dfg.create_value(ValueSource::Expr(expr_id));
            cfg.add_expr_to_block(b, expr_id);
            (b, value_id)
        },
        Expr::If(cond, true_branch, false_branch) => {
            proof {
                assert(parts(*expr)[0] == *cond && parts(*expr)[1] == *true_branch && parts(*expr)[2] == *false_branch);
                lemma_expr_grows(p, ar, *cond, s0, block_id);
                let r1 = run_expr(p, ar, *cond, s0, block_id);
                lemma_block_grows(p, ar, *true_branch, CfgEdge::If(true), Some(r1.1), r1.0);
                let r2 = run_block(p, ar, *true_branch, CfgEdge::If(true), Some(r1.1), r1.0);
                lemma_block_grows(p, ar, *false_branch, CfgEdge::If(false), Some(r1.1), r2.0);
            }
            let (b, value_id) = process_expr(*cond, program, block_id, cfg, dfg, environment);
            let (true_block_id, true_value_id) = process_block(*true_branch, program, CfgEdge::If(true), Some(b), cfg, dfg, environment);
            let (false_block_id, false_value_id) = process_block(*false_branch, program, CfgEdge::If(false), Some(b), cfg, dfg, environment);
            let next_value_id = dfg.create_value(ValueSource::Expr(expr_id));
            cfg.add_expr_to_block(b, expr_id);
            let next = cfg.create_block();
            cfg.add_edge(true_block_id, next, CfgEdge::Jump);
            cfg.add_edge(false_block_id, next, CfgEdge::Jump);
            dfg.add_edge(true_value_id, next_value_id, DfgEdge::If(true));
            dfg.add_edge(false_value_id, next_value_id, DfgEdge::If(false));
            (next, value_id)
        },
        Expr::RecordUpdate(receiver, updates) => {
            proof {
                assert(parts(*expr)[0] == *receiver);
                lemma_expr_grows(p, ar, *receiver, s0, block_id);
                let r = run_expr(p, ar, *receiver, s0, block_id);
                let nv = new_value(r.0, ValueSource::Expr(expr_id));
                let s2 = value_edge(nv.0, r.2, nv.1, DfgEdge::RecordUpdateSource);
                assert(updates@.len() == 1);
                let items = updates@[0].items@;
                lemma_edges_grows(p, ar, field_ids(items), record_tags(items), expr_id.id, s2, r.1, nv.1);
            }
            let (b, value_id) = process_expr(*receiver, program, block_id, cfg, dfg, environment);
            let next_value_id = dfg.create_value(ValueSource::Expr(expr_id));
            dfg.add_edge(value_id, next_value_id, DfgEdge::RecordUpdateSource);
            let update = &updates[0];
            let ids = crate::cfg::ControlFlowGraph::field_expr_ids(&update.items);
            let tags = make_record_tags(&update.items);
            let b = process_edges(&ids, &tags, program, b, next_value_id, Ghost(expr_id.id), cfg, dfg, environment);
            cfg.add_expr_to_block(b, expr_id);
            (b, next_value_id)
        },
        _ => {
            let value_id = dfg.create_value(ValueSource::Expr(expr_id));
            cfg.add_expr_to_block(block_id, expr_id);
            (block_id, value_id)
        },
    }
}

/// Adds the expression `expr_id` in a new block, reached from `source` by
/// `edge` where there is a source (see [`run_block`]).
fn process_block<'a>(
    expr_id: ExprId,
    program: &Program,
    edge: CfgEdge,
    source: Option<BlockId>,
    cfg: &mut ControlFlowGraph,
    dfg: &mut DataflowGraph,
    environment: &mut Environment<'a>,
) -> (r: (BlockId, ValueId))
    requires
        old(cfg).wf(),
        old(dfg).wf(),
        fits(run_block(*program, arg_fn(old(environment)), expr_id, edge, source, state_of(old(cfg), old(dfg), old(environment))).0),
    ensures
        final(cfg).wf(),
        final(dfg).wf(),
        arg_fn(final(environment)) == arg_fn(old(environment)),
        final(cfg).name() == old(cfg).name(),
        final(dfg).name() == old(dfg).name(),
        final(cfg).has_block(r.0),
        run_block(*program, arg_fn(old(environment)), expr_id, edge, source, state_of(old(cfg), old(dfg), old(environment)))
            == (state_of(final(cfg), final(dfg), final(environment)), r.0, r.1),
    decreases expr_id.id, 3nat, 0nat, 0nat,
{
    proof {
        let s = state_of(cfg, dfg, environment);
        let nb = new_block(s);
        let s2 = match source {
            Some(src) => block_edge(nb.0, src, nb.1, edge),
            None => nb.0,
        };
        lemma_expr_grows(*program, arg_fn(environment), expr_id, s2, nb.1);
    }
    let block_id = cfg.create_block();
    if let Some(source) = source {
        cfg.add_edge(source, block_id, edge);
    }
    process_expr(expr_id, program, block_id, cfg, dfg, environment)
}

/// Adds the expressions one after the other; returns the block where control
/// is after them and the value of the last (see [`run_plain`]).
fn process_plain<'a>(
    ids: &Vec<ExprId>,
    program: &Program,
    block_id: BlockId,
    Ghost(bound): Ghost<usize>,
    cfg: &mut ControlFlowGraph,
    dfg: &mut DataflowGraph,
    environment: &mut Environment<'a>,
) -> (r: (BlockId, ValueId))
    requires
        old(cfg).wf(),
        old(dfg).wf(),
        old(cfg).has_block(block_id),
        fits(run_plain(*program, arg_fn(old(environment)), ids@, bound, state_of(old(cfg), old(dfg), old(environment)), block_id).0),
    ensures
        final(cfg).wf(),
        final(dfg).wf(),
        arg_fn(final(environment)) == arg_fn(old(environment)),
        final(cfg).name() == old(cfg).name(),
        final(dfg).name() == old(dfg).name(),
        final(cfg).has_block(r.0),
        run_plain(*program, arg_fn(old(environment)), ids@, bound, state_of(old(cfg), old(dfg), old(environment)), block_id)
            == (state_of(final(cfg), final(dfg), final(environment)), r.0, r.1),
    decreases bound, 1nat, 0nat, 0nat,
{
    let ghost p = *program;
    let ghost ar = arg_fn(environment);
    let ghost s0 = state_of(cfg, dfg, environment);
    let ghost total = run_plain(p, ar, ids@, bound, s0, block_id);
    let mut b = block_id;
    let mut v = ValueId { id: 0 };
    let mut i: usize = 0;
    proof {
        assert(ids@.subrange(0, 0) =~= Seq::<ExprId>::empty());
    }
    while i < ids.len()
        invariant
            i <= ids@.len(),
            p == *program,
            fits(total.0),
            total == run_plain(p, ar, ids@, bound, s0, block_id),
            cfg.wf(),
            dfg.wf(),
            cfg.has_block(b),
            arg_fn(environment) == ar,
            cfg.name() == old(cfg).name(),
            dfg.name() == old(dfg).name(),
            (state_of(cfg, dfg, environment), b, v) == run_plain(p, ar, ids@.subrange(0, i as int), bound, s0, block_id),
        decreases ids@.len() - i,
    {
        proof {
            let sub = ids@.subrange(0, i + 1);
            assert(sub.drop_last() =~= ids@.subrange(0, i as int));
            assert(sub.last() == ids@[i as int]);
            lemma_plain_prefix(p, ar, ids@, i + 1, bound, s0, block_id);
        }
        let (nb, nv) = process_expr(ids[i], program, b, cfg, dfg, environment);
        b = nb;
        v = nv;
        i += 1;
    }
    proof {
        assert(ids@.subrange(0, i as int) =~= ids@);
    }
    (b, v)
}

/// Adds the expressions one after the other, each value flowing into
/// `target` by the edge of its position in `tags` (see [`run_edges`]).
fn process_edges<'a>(
    ids: &Vec<ExprId>,
    tags: &Vec<DfgEdge>,
    program: &Program,
    block_id: BlockId,
    target: ValueId,
    Ghost(bound): Ghost<usize>,
    cfg: &mut ControlFlowGraph,
    dfg: &mut DataflowGraph,
    environment: &mut Environment<'a>,
) -> (r: BlockId)
    requires
        old(cfg).wf(),
        old(dfg).wf(),
        old(cfg).has_block(block_id),
        tags@.len() == ids@.len(),
        fits(run_edges(*program, arg_fn(old(environment)), ids@, tags@, bound, state_of(old(cfg), old(dfg), old(environment)), block_id, target).0),
    ensures
        final(cfg).wf(),
        final(dfg).wf(),
        arg_fn(final(environment)) == arg_fn(old(environment)),
        final(cfg).name() == old(cfg).name(),
        final(dfg).name() == old(dfg).name(),
        final(cfg).has_block(r),
        run_edges(*program, arg_fn(old(environment)), ids@, tags@, bound, state_of(old(cfg), old(dfg), old(environment)), block_id, target)
            == (state_of(final(cfg), final(dfg), final(environment)), r),
    decreases bound, 1nat, 0nat, 0nat,
{
    let ghost p = *program;
    let ghost ar = arg_fn(environment);
    let ghost s0 = state_of(cfg, dfg, environment);
    let ghost total = run_edges(p, ar, ids@, tags@, bound, s0, block_id, target);
    let mut b = block_id;
    let mut i: usize = 0;
    proof {
        assert(ids@.subrange(0, 0) =~= Seq::<ExprId>::empty());
    }
    while i < ids.len()
        invariant
            i <= ids@.len(),
            tags@.len() == ids@.len(),
            p == *program,
            fits(total.0),
            total == run_edges(p, ar, ids@, tags@, bound, s0, block_id, target),
            cfg.wf(),
            dfg.wf(),
            cfg.has_block(b),
            arg_fn(environment) == ar,
            cfg.name() == old(cfg).name(),
            dfg.name() == old(dfg).name(),
            (state_of(cfg, dfg, environment), b) == run_edges(p, ar, ids@.subrange(0, i as int), tags@, bound, s0, block_id, target),
        decreases ids@.len() - i,
    {
        proof {
            let sub = ids@.subrange(0, i + 1);
            assert(sub.drop_last() =~= ids@.subrange(0, i as int));
            assert(sub.last() == ids@[i as int]);
            lemma_edges_prefix(p, ar, ids@, tags@, i + 1, bound, s0, block_id, target);
        }
        let (nb, nv) = process_expr(ids[i], program, b, cfg, dfg, environment);
        dfg.add_edge(nv, target, tags[i]);
        b = nb;
        i += 1;
    }
    proof {
        assert(ids@.subrange(0, i as int) =~= ids@);
    }
    b
}

/// Adds the arms of a case after the block `block_id` (see [`run_cases`]).
fn process_cases<'a>(
    cases: &Vec<Case>,
    program: &Program,
    block_id: BlockId,
    next: BlockId,
    target: ValueId,
    Ghost(bound): Ghost<usize>,
    cfg: &mut ControlFlowGraph,
    dfg: &mut DataflowGraph,
    environment: &mut Environment<'a>,
)
    requires
        old(cfg).wf(),
        old(dfg).wf(),
        old(cfg).has_block(block_id),
        old(cfg).has_block(next),
        fits(run_cases(*program, arg_fn(old(environment)), cases@, bound, state_of(old(cfg), old(dfg), old(environment)), block_id, next, target)),
    ensures
        final(cfg).wf(),
        final(dfg).wf(),
        arg_fn(final(environment)) == arg_fn(old(environment)),
        final(cfg).name() == old(cfg).name(),
        final(dfg).name() == old(dfg).name(),
        final(cfg).has_block(next),
        run_cases(*program, arg_fn(old(environment)), cases@, bound, state_of(old(cfg), old(dfg), old(environment)), block_id, next, target)
            == state_of(final(cfg), final(dfg), final(environment)),
    decreases bound, 1nat, 0nat, 0nat,
{
    let ghost p = *program;
    let ghost ar = arg_fn(environment);
    let ghost s0 = state_of(cfg, dfg, environment);
    let ghost total = run_cases(p, ar, cases@, bound, s0, block_id, next, target);
    let mut i: usize = 0;
    proof {
        assert(cases@.subrange(0, 0) =~= Seq::<Case>::empty());
    }
    while i < cases.len()
        invariant
            i <= cases@.len(),
            p == *program,
            fits(total),
            total == run_cases(p, ar, cases@, bound, s0, block_id, next, target),
            cfg.wf(),
            dfg.wf(),
            cfg.has_block(block_id),
            cfg.has_block(next),
            arg_fn(environment) == ar,
            cfg.name() == old(cfg).name(),
            dfg.name() == old(dfg).name(),
            state_of(cfg, dfg, environment) == run_cases(p, ar, cases@.subrange(0, i as int), bound, s0, block_id, next, target),
        decreases cases@.len() - i,
    {
        proof {
            let sub = cases@.subrange(0, i + 1);
            assert(sub.drop_last() =~= cases@.subrange(0, i as int));
            assert(sub.last() == cases@[i as int]);
            lemma_cases_prefix(p, ar, cases@, i + 1, bound, s0, block_id, next, target);
            let s1 = run_cases(p, ar, cases@.subrange(0, i as int), bound, s0, block_id, next, target);
            lemma_pattern_grows(p, ar, cases@[i as int].pattern_id, s1, block_id, bound);
            let q = run_pattern(p, ar, cases@[i as int].pattern_id, s1, block_id, bound);
            lemma_block_grows(p, ar, cases@[i as int].body, CfgEdge::Case(i), Some(q.1), q.0);
        }
        let case = &cases[i];
        let b = process_pattern(case.pattern_id, program, block_id, Ghost(bound), cfg, dfg, environment);
        let (case_block_id, value_id) = process_block(case.body, program, CfgEdge::Case(i), Some(b), cfg, dfg, environment);
        cfg.add_edge(case_block_id, next, CfgEdge::Case(i));
        dfg.add_edge(value_id, target, DfgEdge::Case(i));
        i += 1;
    }
    proof {
        assert(cases@.subrange(0, i as int) =~= cases@);
    }
}

/// The name with each `/` written as `_`.
pub open spec fn slashes_replaced(s: Seq<char>) -> Seq<char> {
    Seq::new(s.len(), |i: int| if s[i] == '/' { '_' } else { s[i] })
}

/// What the arguments of the function `f` with `n` arguments are bound to:
/// the first `n` values, by position.
pub open spec fn function_args(f: FunctionId, n: nat) -> spec_fn(FunctionArgumentRef) -> Option<ValueId> {
    |a: FunctionArgumentRef|
        if a.id == f && a.index < n {
            Some(ValueId { id: a.index })
        } else {
            None
        }
}

/// The state before a body with `n` arguments is built: one value for each
/// argument, and nothing else.
pub open spec fn function_start(n: nat) -> FlowState {
    FlowState {
        ok: true,
        blocks: Seq::empty(),
        block_edges: Seq::empty(),
        sources: Seq::new(n, |i: int| ValueSource::Arg(i as usize)),
        value_edges: Seq::empty(),
        vars: Map::empty(),
    }
}

/// Building the body `body` of the function `f` with `n` arguments, in a
/// first block of its own.
pub open spec fn run_function(p: Program, f: FunctionId, n: nat, body: ExprId) -> (FlowState, BlockId, ValueId) {
    run_block(p, function_args(f, n), body, CfgEdge::Jump, None, function_start(n))
}

/// Writes `name` with each `/` as `_`.
fn replace_slashes(name: &str) -> (r: String)
    ensures
        r@ == slashes_replaced(name@),
{
    let n = name.unicode_len();
    let mut r = String::new();
    let mut i: usize = 0;
    proof {
        reveal_strlit("_");
    }
    while i < n
        invariant
            n == name@.len(),
            i <= n,
            "_"@ == seq!['_'],
            r@ == slashes_replaced(name@).subrange(0, i as int),
        decreases n - i,
    {
        let c = name.get_char(i);
        if c == '/' {
            r.append("_");
        } else {
            r.append(name.substring_char(i, i + 1));
        }
        i += 1;
        assert(r@ =~= slashes_replaced(name@).subrange(0, i as int));
    }
    assert(slashes_replaced(name@).subrange(0, n as int) =~= slashes_replaced(name@));
    r
}

/// Builds the control and data flow graphs of the function `function_id`,
/// whose name reads `name` and which takes `arg_count` arguments, from its
/// body; `None` for a function without a body. The graphs are named after
/// the function, with `cfg_` and `dfg_` before it and each `/` as `_`; the
/// first values stand for the arguments, by position.
pub fn process_function(
    program: &Program,
    function_id: FunctionId,
    name: &str,
    arg_count: usize,
    body: Option<ExprId>,
) -> (r: Option<(ControlFlowGraph, DataflowGraph)>)
    requires
        body is Some ==> fits(run_function(*program, function_id, arg_count as nat, body->0).0),
    ensures
        r is Some <==> body is Some,
        r is Some ==> ({
            let (cfg, dfg) = r->0;
            let built = run_function(*program, function_id, arg_count as nat, body->0).0;
            &&& cfg.wf()
            &&& dfg.wf()
            &&& cfg.name() == "cfg_"@ + slashes_replaced(name@)
            &&& dfg.name() == "dfg_"@ + slashes_replaced(name@)
            &&& cfg.blocks() == built.blocks
            &&& cfg.edges() == built.block_edges
            &&& dfg.sources() == built.sources
            &&& dfg.edges() == built.value_edges
        }),
{
    match body {
        None => None,
        Some(body) => {
            let plain = replace_slashes(name);
            let mut cfg_name = String::from_str("cfg_");
            cfg_name.append(plain.as_str());
            let mut dfg_name = String::from_str("dfg_");
            dfg_name.append(plain.as_str());
            let mut cfg = ControlFlowGraph::new(cfg_name);
            let mut dfg = DataflowGraph::new(dfg_name);
            let ghost start = function_start(arg_count as nat);
            proof {
                lemma_block_grows_start(*program, function_id, arg_count as nat, body);
            }
            let mut args: Vec<ValueId> = Vec::new();
            let mut index: usize = 0;
            while index < arg_count
                invariant
                    index <= arg_count,
                    start == function_start(arg_count as nat),
                    dfg.wf(),
                    dfg.name() == "dfg_"@ + slashes_replaced(name@),
                    dfg.edges().len() == 0,
                    dfg.sources() == start.sources.subrange(0, index as int),
                    args@ == Seq::new(index as nat, |i: int| ValueId { id: i as usize }),
                decreases arg_count - index,
            {
                let value_id = dfg.create_value(ValueSource::Arg(index));
                args.push(value_id);
                index += 1;
                assert(dfg.sources() =~= start.sources.subrange(0, index as int));
                assert(args@ =~= Seq::new(index as nat, |i: int| ValueId { id: i as usize }));
            }
            let mut environment = Environment::new(CallableKind::FunctionId(function_id), args);
            proof {
                assert(start.sources.subrange(0, arg_count as int) =~= start.sources);
                assert(arg_fn(&environment) =~= function_args(function_id, arg_count as nat));
                assert(env_vars(&environment) =~= Map::<PatternId, ValueId>::empty());
                assert(cfg.blocks() =~= start.blocks);
                assert(cfg.edges() =~= start.block_edges);
                assert(dfg.edges() =~= start.value_edges);
                assert(state_of(&cfg, &dfg, &environment) == start);
            }
            process_block(body, program, CfgEdge::Jump, None, &mut cfg, &mut dfg, &mut environment);
            Some((cfg, dfg))
        },
    }
}

/// Building a body from the start state only grows it.
proof fn lemma_block_grows_start(p: Program, f: FunctionId, n: nat, body: ExprId)
    ensures
        grows(function_start(n), run_function(p, f, n, body).0),
{
    let nb = new_block(function_start(n));
    lemma_expr_grows(p, function_args(f, n), body, nb.0, nb.1);
}

} // verus!
