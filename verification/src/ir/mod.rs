pub mod class;
pub mod data;
pub mod expr;
pub mod function;
pub mod instance_resolution_cache;
pub mod pattern;
pub mod program;
pub mod type_format;
pub mod type_signature;
pub mod type_var_generator;
pub mod types;
pub mod types_old;
