//! Drivers: which driver a device gets.

pub mod pci;
