//! System calls: what the kernel decides when a process asks for a
//! service.

pub mod execute;
