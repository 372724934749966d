pub mod class;
pub mod data;
pub mod expr;
pub mod function;
pub mod module;
pub mod program;
pub mod types;
