pub mod backend;
pub mod class_member_processor;
pub mod function_queue;
pub mod typedef_store;
