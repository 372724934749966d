pub mod data;
pub mod expr;
pub mod function;
pub mod program;
pub mod types;
