//! Parser, key-name resolver and run planner for line-oriented input
//! automation scripts.
pub mod text;
pub mod number;
pub mod keys;
pub mod script;
pub mod dispatch;
pub mod laws;
