pub mod value;
pub mod args;
pub mod numeric;
pub mod context;
pub mod builtins;
pub mod filter;
pub mod laws;
