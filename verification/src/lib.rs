//! Execution and capability-routing core of a microkernel: a cooperative
//! scheduler, a scheme registry, a user-space scheme bridge and pipes.

pub mod error;
pub mod text;
pub mod ordered;
pub mod redoxfs;
pub mod acpi;
pub mod scheduler;
pub mod schemes;
pub mod syscall;
pub mod drivers;
pub mod env;
pub mod fs;
pub mod graphics;
pub mod interrupt;
pub mod network;
pub mod scheme;
