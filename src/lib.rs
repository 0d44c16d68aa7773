//! A bare-metal RISC-V supervisor-mode kernel bootstrap, modelled so that its
//! logic can be proved: the firmware call interface, the console, the panic
//! path, the clearing of the zero-initialised data region and the boot entry.

pub mod sbi;
pub mod console;
pub mod panic_handler;
pub mod memory;
pub mod boot;
