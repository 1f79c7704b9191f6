//! The standard-library host functions the machine dispatches to.

pub mod async_ops;
pub mod list;
pub mod script;
pub mod table;
