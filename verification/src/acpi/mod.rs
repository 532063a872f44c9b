//! ACPI support: the reader of AML byte code.

pub mod aml;
