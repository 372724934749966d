use siko::cfg::BasicBlock;
use siko::cfg::ControlFlowGraph;
use siko::flow_graph::cfg::BlockId;
use siko::ir::expr::Case;
use siko::ir::expr::Expr;
use siko::ir::function::FunctionId;
use siko::ir::pattern::PatternId;
use siko::ir::program::Program;
use siko::location::LocationId;

fn loc() -> LocationId {
    LocationId { id: 0 }
}

#[test]
fn if_branches_join_in_a_new_block() {
    let mut p = Program::new();
    let c = p.add_expr(Expr::IntegerLiteral(1), loc());
    let t = p.add_expr(Expr::IntegerLiteral(2), loc());
    let f = p.add_expr(Expr::IntegerLiteral(3), loc());
    let e = p.add_expr(Expr::If(c, t, f), loc());
    let cfg = ControlFlowGraph::create(String::from("main"), e, &p);
    let text = format!("{:?}", cfg);
    assert!(text.contains("BasicBlock { id: BlockId { id: 0 }, sources: [], elements: [Expr(ExprId { id: 0 }), Expr(ExprId { id: 3 })] }"));
    assert!(text.contains("BasicBlock { id: BlockId { id: 1 }, sources: [BlockId { id: 0 }], elements: [Expr(ExprId { id: 1 })] }"));
    assert!(text.contains("BasicBlock { id: BlockId { id: 2 }, sources: [BlockId { id: 0 }], elements: [Expr(ExprId { id: 2 })] }"));
    assert!(text.contains("BasicBlock { id: BlockId { id: 3 }, sources: [BlockId { id: 1 }, BlockId { id: 2 }], elements: [] }"));
    assert!(!text.contains("id: BlockId { id: 4 }"));
}

#[test]
fn do_opens_a_block_and_ends_it() {
    let mut p = Program::new();
    let a = p.add_expr(Expr::IntegerLiteral(1), loc());
    let b = p.add_expr(Expr::StaticFunctionCall(FunctionId { id: 0 }, vec![a]), loc());
    let d = p.add_expr(Expr::Do(vec![a, b]), loc());
    let cfg = ControlFlowGraph::create(String::from("f"), d, &p);
    let text = format!("{:?}", cfg);
    assert!(text.contains("BasicBlock { id: BlockId { id: 0 }, sources: [], elements: [Expr(ExprId { id: 2 })] }"));
    assert!(text.contains("BasicBlock { id: BlockId { id: 1 }, sources: [BlockId { id: 0 }], elements: [Expr(ExprId { id: 0 }), Expr(ExprId { id: 0 }), Expr(ExprId { id: 1 }), Terminator(ExprId { id: 2 })] }"));
}

#[test]
fn case_arms_each_get_a_block() {
    let mut p = Program::new();
    let x = p.add_expr(Expr::StringLiteral(String::from("s")), loc());
    let a = p.add_expr(Expr::IntegerLiteral(1), loc());
    let b = p.add_expr(Expr::IntegerLiteral(2), loc());
    let cases = vec![
        Case { pattern_id: PatternId { id: 0 }, body: a },
        Case { pattern_id: PatternId { id: 1 }, body: b },
    ];
    let e = p.add_expr(Expr::CaseOf(x, cases), loc());
    let cfg = ControlFlowGraph::create(String::from("g"), e, &p);
    let text = format!("{:?}", cfg);
    assert!(text.contains("BasicBlock { id: BlockId { id: 0 }, sources: [], elements: [Expr(ExprId { id: 0 }), Expr(ExprId { id: 3 })] }"));
    assert!(text.contains("BasicBlock { id: BlockId { id: 1 }, sources: [BlockId { id: 2 }, BlockId { id: 3 }], elements: [] }"));
    assert!(text.contains("BasicBlock { id: BlockId { id: 2 }, sources: [BlockId { id: 0 }], elements: [Expr(ExprId { id: 1 })] }"));
    assert!(text.contains("BasicBlock { id: BlockId { id: 3 }, sources: [BlockId { id: 0 }], elements: [Expr(ExprId { id: 2 })] }"));
}

#[test]
fn basic_block_new() {
    let b = BasicBlock::new(BlockId { id: 4 });
    assert_eq!(b.id, BlockId { id: 4 });
    assert!(b.sources.is_empty());
    assert!(b.elements.is_empty());
}
