//! Kernel shell registration.
//!
//! The shell itself is a console loop and runs outside the core; what the
//! core does is create the kernel thread that will run it — complete with
//! its own process, address space and pid — and hand the thread to the
//! scheduler.

use vstd::prelude::*;

use crate::process::Kernel;
use crate::thread::{ExecContext, Thread};

verus! {

/// The entry point the shell thread starts from, as the opaque value the
/// context records.
pub const SHELL_ENTRY: usize = 0x1;

/// Create the kernel thread that runs the simple kernel shell and return
/// it for registration with the scheduler.
pub fn add_simple_kernel_shell(kernel: &mut Kernel) -> (t: Thread)
    requires
        old(kernel).wf(),
        old(kernel).table@.len() < usize::MAX,
    ensures
        final(kernel).wf(),
        t.proc is Some,
        final(kernel).live(t.proc->Some_0 as int),
        t.context == (ExecContext::KernelEntry { entry: SHELL_ENTRY, arg: 0 }),
{
    Thread::new_kernel(kernel, SHELL_ENTRY, 0)
}

} // verus!
