//! Schemes that are addressed by the number of a handle.

pub mod pipe;
