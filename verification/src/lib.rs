//! Process and thread lifecycle core of a kernel, as a verified model.
//!
//! The model keeps every piece of shared state explicit: a `Kernel` value
//! owns the process arena, the pid table, the condition variables and the
//! address spaces, and every operation is a function over that value with a
//! contract.  Hardware work (serial ports, the interrupt controller, the
//! real CPU flag register, the register-swap of a context switch) stays
//! outside; the decisions the kernel makes around it are here.

pub mod boot;
pub mod condvar;
pub mod interrupt;
pub mod memory;
pub mod pid;
pub mod process;
pub mod shell;
pub mod syscall;
pub mod thread;
