//! Schemes and resources: what a provider of file-like capabilities
//! implements, and the providers that live in the kernel.

pub mod builtin;
pub mod debug;
pub mod display;
pub mod env;
pub mod file;
pub mod kscheme;
pub mod memory;
pub mod resource;
pub mod url;
pub mod vec_resource;
