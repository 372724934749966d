use vstd::prelude::*;

pub mod backend;
pub mod cfg;
pub mod cli;
pub mod config;
pub mod constants;
pub mod flow_graph;
pub mod interpreter;
pub mod ir;
pub mod location;
pub mod mir;
pub mod name_resolver;
pub mod syntax;
pub mod transpiler;
pub mod util;

verus! {

} // verus!
