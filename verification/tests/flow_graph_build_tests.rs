use siko::flow_graph::process_function;
use siko::ir::expr::Expr;
use siko::ir::expr::FunctionArgumentRef;
use siko::ir::function::FunctionId;
use siko::ir::program::Program;
use siko::location::LocationId;

fn loc() -> LocationId {
    LocationId { id: 0 }
}

fn arg(f: FunctionId, index: usize) -> Expr {
    Expr::ArgRef(FunctionArgumentRef { captured: false, id: f, index: index })
}

#[test]
fn function_without_body_has_no_graphs() {
    let p = Program::new();
    assert!(process_function(&p, FunctionId { id: 0 }, "main", 0, None).is_none());
}

#[test]
fn call_arguments_flow_into_the_call() {
    let f = FunctionId { id: 3 };
    let mut p = Program::new();
    let a0 = p.add_expr(arg(f, 0), loc());
    let a1 = p.add_expr(arg(f, 1), loc());
    let call = p.add_expr(Expr::StaticFunctionCall(FunctionId { id: 9 }, vec![a0, a1]), loc());
    let (cfg, dfg) = process_function(&p, f, "main/helper", 2, Some(call)).unwrap();
    let c = format!("{:?}", cfg);
    let d = format!("{:?}", dfg);
    assert!(c.contains("name: \"cfg_main_helper\""));
    assert!(c.contains("blocks: [BasicBlock { elements: [Expr(ExprId { id: 0 }), Expr(ExprId { id: 1 }), Expr(ExprId { id: 2 })] }], edges: []"));
    assert!(d.contains("name: \"dfg_main_helper\""));
    assert!(d.contains("Value { id: ValueId { id: 0 }, source: Arg(0), uses: [] }"));
    assert!(d.contains("Value { id: ValueId { id: 1 }, source: Arg(1), uses: [] }"));
    assert!(d.contains("Value { id: ValueId { id: 2 }, source: Expr(ExprId { id: 2 }), uses: [] }"));
    assert!(d.contains("edges: [(ValueId { id: 0 }, ValueId { id: 2 }, FnArg(0)), (ValueId { id: 1 }, ValueId { id: 2 }, FnArg(1))]"));
}

#[test]
fn if_branches_meet_in_a_fresh_block() {
    let f = FunctionId { id: 1 };
    let mut p = Program::new();
    let c = p.add_expr(arg(f, 0), loc());
    let t = p.add_expr(Expr::IntegerLiteral(1), loc());
    let e = p.add_expr(Expr::IntegerLiteral(2), loc());
    let body = p.add_expr(Expr::If(c, t, e), loc());
    let (cfg, dfg) = process_function(&p, f, "choose", 1, Some(body)).unwrap();
    let text = format!("{:?}", cfg);
    assert!(text.contains("name: \"cfg_choose\""));
    assert!(text.contains("blocks: [BasicBlock { elements: [Expr(ExprId { id: 0 }), Expr(ExprId { id: 3 })] }, BasicBlock { elements: [Expr(ExprId { id: 1 })] }, BasicBlock { elements: [Expr(ExprId { id: 2 })] }, BasicBlock { elements: [] }]"));
    assert!(text.contains("edges: [(BlockId { id: 0 }, BlockId { id: 1 }, If(true)), (BlockId { id: 0 }, BlockId { id: 2 }, If(false)), (BlockId { id: 1 }, BlockId { id: 3 }, Jump), (BlockId { id: 2 }, BlockId { id: 3 }, Jump)]"));
    let values = format!("{:?}", dfg);
    assert!(values.contains("edges: [(ValueId { id: 1 }, ValueId { id: 3 }, If(true)), (ValueId { id: 2 }, ValueId { id: 3 }, If(false))]"));
}
