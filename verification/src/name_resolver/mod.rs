pub mod error;
pub mod import;
pub mod item;
pub mod module;
pub mod resolver;
pub mod type_arg_constraint_collector;
pub mod type_arg_resolver;
pub mod type_processor;
