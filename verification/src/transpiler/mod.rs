pub mod builtins;
pub mod closure;
pub mod util;
pub mod typedef;
