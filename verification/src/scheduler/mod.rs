//! Execution units and the cooperative round-robin scheduler.

pub mod context;
pub mod shared;
pub mod table;
pub mod laws;
