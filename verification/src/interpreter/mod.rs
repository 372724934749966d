pub mod environment;
pub mod extern_call;
