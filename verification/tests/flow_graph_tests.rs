use siko::flow_graph::cfg::BasicBlock;
use siko::flow_graph::cfg::BlockId;
use siko::flow_graph::cfg::ControlFlowGraph;
use siko::flow_graph::cfg::Edge as CfgEdge;
use siko::flow_graph::dfg::DataflowGraph;
use siko::flow_graph::dfg::Edge as DfgEdge;
use siko::flow_graph::dfg::Value;
use siko::flow_graph::dfg::ValueId;
use siko::flow_graph::dfg::ValueSource;
use siko::flow_graph::environment::BuiltinCallable;
use siko::flow_graph::environment::CallableKind;
use siko::flow_graph::environment::Environment;
use siko::ir::expr::ExprId;
use siko::ir::expr::FunctionArgumentRef;
use siko::ir::function::FunctionId;
use siko::ir::pattern::PatternId;

#[test]
fn blocks_are_numbered_in_order() {
    let mut cfg = ControlFlowGraph::new(String::from("cfg_main"));
    let b0 = cfg.create_block();
    let b1 = cfg.create_block();
    let b2 = cfg.create_block();
    assert_eq!(b0, BlockId::from(0));
    assert_eq!(b1, BlockId { id: 1 });
    assert_eq!(b2.id, 2);
}

#[test]
fn block_elements_and_edges() {
    let mut cfg = ControlFlowGraph::new(String::from("g"));
    let b0 = cfg.create_block();
    let b1 = cfg.create_block();
    cfg.add_expr_to_block(b0, ExprId { id: 3 });
    cfg.add_terminator_to_block(b0, ExprId { id: 4 });
    cfg.add_edge(b0, b1, CfgEdge::If(true));
    let text = format!("{:?}", cfg);
    assert!(text.contains("elements: [Expr(ExprId { id: 3 }), Terminator(ExprId { id: 4 })]"));
    assert!(text.contains("elements: []"));
    assert!(text.contains("(BlockId { id: 0 }, BlockId { id: 1 }, If(true))"));
}

#[test]
fn basic_block_starts_empty() {
    let block = BasicBlock::new();
    assert!(block.elements.is_empty());
}

#[test]
fn values_are_numbered_in_order() {
    let mut dfg = DataflowGraph::new(String::from("dfg_main"));
    let v0 = dfg.create_value(ValueSource::Arg(0));
    let v1 = dfg.create_value(ValueSource::Expr(ExprId { id: 9 }));
    assert_eq!(v0, ValueId::from(0));
    assert_eq!(v1.id, 1);
    dfg.add_edge(v0, v1, DfgEdge::FnArg(0));
    let text = format!("{:?}", dfg);
    assert!(text.contains("source: Expr(ExprId { id: 9 })"));
    assert!(text.contains("(ValueId { id: 0 }, ValueId { id: 1 }, FnArg(0))"));
}

#[test]
fn value_new_has_no_uses() {
    let v = Value::new(ValueId { id: 5 }, ValueSource::Pattern(PatternId { id: 2 }));
    assert_eq!(v.id, ValueId { id: 5 });
    assert_eq!(v.source, ValueSource::Pattern(PatternId { id: 2 }));
    assert!(v.uses.is_empty());
}

#[test]
fn environment_reads_back_what_was_bound() {
    let f = FunctionId { id: 1 };
    let mut env = Environment::new(CallableKind::FunctionId(f), vec![ValueId { id: 10 }, ValueId { id: 11 }]);
    env.add(PatternId { id: 0 }, ValueId { id: 20 });
    env.add(PatternId { id: 1 }, ValueId { id: 21 });
    env.add(PatternId { id: 0 }, ValueId { id: 22 });
    assert_eq!(env.get_value(&PatternId { id: 0 }), ValueId { id: 22 });
    assert_eq!(env.get_value(&PatternId { id: 1 }), ValueId { id: 21 });
    assert_eq!(env.get_arg_by_index(1), ValueId { id: 11 });
    assert_eq!(env.get_arg(&FunctionArgumentRef { captured: false, id: f, index: 0 }), ValueId { id: 10 });
}

#[test]
fn child_block_sees_and_shadows_its_parent() {
    let f = FunctionId { id: 1 };
    let mut parent = Environment::new(CallableKind::FunctionId(f), vec![ValueId { id: 10 }]);
    parent.add(PatternId { id: 0 }, ValueId { id: 20 });
    parent.add(PatternId { id: 1 }, ValueId { id: 21 });
    let mut child = Environment::block_child(&parent);
    assert_eq!(child.get_value(&PatternId { id: 0 }), ValueId { id: 20 });
    child.add(PatternId { id: 0 }, ValueId { id: 30 });
    assert_eq!(child.get_value(&PatternId { id: 0 }), ValueId { id: 30 });
    assert_eq!(child.get_value(&PatternId { id: 1 }), ValueId { id: 21 });
    assert_eq!(child.get_arg(&FunctionArgumentRef { captured: false, id: f, index: 0 }), ValueId { id: 10 });
    assert_eq!(child.get_arg_by_index(0), ValueId { id: 10 });
    assert_eq!(parent.get_value(&PatternId { id: 0 }), ValueId { id: 20 });
}

#[test]
fn builtin_environment() {
    let mut env = Environment::new(CallableKind::Builtin(BuiltinCallable::Show), vec![ValueId { id: 3 }]);
    env.add(PatternId { id: 7 }, ValueId { id: 8 });
    assert_eq!(env.get_value(&PatternId { id: 7 }), ValueId { id: 8 });
    assert_eq!(env.get_arg_by_index(0), ValueId { id: 3 });
}
