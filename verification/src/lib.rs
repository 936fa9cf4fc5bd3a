use vstd::prelude::*;

pub mod acpi;
pub mod exception;
pub mod memory;
pub mod memory_map;
pub mod text;
pub mod x86;
