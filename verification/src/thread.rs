//! Thread entities.
//!
//! A thread owns an execution context — the architecture's saved-register
//! state, opaque to this core — a kernel stack, and shared handles to the
//! owning process and its address space.  The register blob itself belongs
//! to an architecture collaborator; the model keeps the one operation the
//! scheduler needs, an atomic swap of two contexts, and the bookkeeping
//! that ties threads to processes.

use vstd::prelude::*;

use crate::process::{Kernel, Process};

verus! {

/// The opaque saved-register state of one execution context.  The core
/// never looks inside a context; it only creates, clones and swaps them.
#[derive(Clone, Copy, Debug, PartialEq, Eq, Structural)]
pub enum ExecContext {
    /// The placeholder context of the very first switch-in: there is no
    /// saved state yet, only the running CPU.
    Bootstrap,
    /// A fresh kernel-mode context primed to begin at an entry point with
    /// one argument.
    KernelEntry { entry: usize, arg: usize },
    /// A context cloned from a running thread, with a new stack pointer.
    Cloned { stack_pointer: usize },
}

/// The kernel stack used while executing in kernel mode on behalf of a
/// thread; owned exclusively by it.  Its memory lives outside the model.
#[derive(Clone, Copy, Debug, PartialEq, Eq, Structural)]
pub struct KernelStack {
    /// Size of the stack in bytes.
    pub size: usize,
}

/// Default size of a kernel stack in the model.
pub const KSTACK_SIZE: usize = 0x4000;

/// One schedulable execution context.
#[derive(Clone, Debug)]
pub struct Thread {
    /// The saved-register blob the scheduler swaps.
    pub context: ExecContext,
    /// The kernel stack; absent only in the bootstrap placeholder.
    pub kstack: Option<KernelStack>,
    /// Address to be zeroed, and its waiters woken, when the thread exits.
    pub clear_child_tid: usize,
    /// Handle of the owning process's address space; the same handle the
    /// process holds.  Absent only in the bootstrap placeholder.
    pub vm: Option<usize>,
    /// Handle of the owning process.  Absent only in the bootstrap
    /// placeholder.
    pub proc: Option<usize>,
}

impl Thread {
    /// Whether this thread is the bootstrap placeholder: no process, no
    /// address space, no stack — only the running CPU's context.
    pub open spec fn is_bootstrap(&self) -> bool {
        &&& self.context is Bootstrap
        &&& self.kstack is None
        &&& self.vm is None
        &&& self.proc is None
    }

    /// Make the placeholder for the init thread: the currently running
    /// context has no real thread object yet.  Every field except the
    /// execution context is semantically unused and must never be read;
    /// this is strictly a bootstrap shim for the very first switch-in.
    pub fn new_init() -> (t: Thread)
        ensures
            t.is_bootstrap(),
    {
        Thread {
            context: ExecContext::Bootstrap,
            kstack: None,
            clear_child_tid: 0,
            vm: None,
            proc: None,
        }
    }

    /// Make a new kernel thread starting from `entry` with `arg`: a brand
    /// new address space, a kernel stack, a fresh kernel-mode context, and
    /// a brand-new process — root working directory, no parent, pid
    /// assigned by the table — sharing the address space with the thread.
    pub fn new_kernel(kernel: &mut Kernel, entry: usize, arg: usize) -> (t: Thread)
        requires
            old(kernel).wf(),
            old(kernel).table@.len() < usize::MAX,
        ensures
            final(kernel).wf(),
            t.proc is Some,
            ({
                let h = t.proc->Some_0 as int;
                &&& h == old(kernel).procs@.len()
                &&& final(kernel).live(h)
                &&& t.context == (ExecContext::KernelEntry { entry, arg })
                &&& t.kstack == Some(KernelStack { size: KSTACK_SIZE })
                &&& t.clear_child_tid == 0
                &&& t.vm == Some(final(kernel).proc_at(h).vm)
                &&& final(kernel).proc_at(h).vm == old(kernel).spaces@.len()
                &&& final(kernel).proc_at(h).cwd@ == "/"@
                &&& final(kernel).proc_at(h).futexes@.len() == 0
                &&& final(kernel).proc_at(h).parent is None
                &&& final(kernel).proc_at(h).children@.len() == 0
                &&& final(kernel).proc_at(h).threads@.len() == 0
                &&& final(kernel).proc_at(h).child_exit_code@.len() == 0
                // the fresh pid is the smallest with no table entry
                &&& ({
                    let pid = final(kernel).proc_at(h).pid.0;
                    &&& pid <= old(kernel).table@.len()
                    &&& (pid < old(kernel).table@.len() ==> old(kernel).table@[pid as int] is None)
                    &&& forall|j: int| 0 <= j < pid ==> (#[trigger] old(kernel).table@[j]) is Some
                })
                &&& forall|g: int|
                    0 <= g < old(kernel).procs@.len() ==> final(kernel).procs@[g] == old(
                        kernel,
                    ).procs@[g]
            }),
            final(kernel).spaces@.len() == old(kernel).spaces@.len() + 1,
            final(kernel).term_requests@ == old(kernel).term_requests@,
    {
        let vm = kernel.spaces.len();
        kernel.spaces.push(crate::memory::AddressSpace::new());
        let cv = kernel.condvars.len();
        kernel.condvars.push(crate::condvar::Condvar::new());
        let p = Process::new(vm, cv);
        proof {
            assert forall|s: int| 0 <= s < kernel.spaces@.len() implies (#[trigger] kernel.spaces@[
                s
            ]).wf() by {
                if s < old(kernel).spaces@.len() {
                    assert(old(kernel).spaces@[s].wf());
                }
            }
            assert forall|g: int| kernel.slot_ok(g) by {
                assert(old(kernel).slot_ok(g));
                if kernel.live(g) {
                    assert(old(kernel).live(g));
                    assert(kernel.proc_at(g) == old(kernel).proc_at(g));
                }
            }
        }
        let h = kernel.add_to_table(p);
        Thread {
            context: ExecContext::KernelEntry { entry, arg },
            kstack: Some(KernelStack { size: KSTACK_SIZE }),
            clear_child_tid: 0,
            vm: Some(vm),
            proc: Some(h),
        }
    }

    /// Atomically save the calling context and restore `target`'s: the
    /// indivisible unit of a context switch, with no intermediate
    /// observable state.  The caller is responsible for running this with
    /// interrupt delivery disabled.
    pub fn switch_to(&mut self, target: &mut Thread)
        ensures
            final(self).context == old(target).context,
            final(target).context == old(self).context,
            final(self).kstack == old(self).kstack,
            final(self).clear_child_tid == old(self).clear_child_tid,
            final(self).vm == old(self).vm,
            final(self).proc == old(self).proc,
            final(target).kstack == old(target).kstack,
            final(target).clear_child_tid == old(target).clear_child_tid,
            final(target).vm == old(target).vm,
            final(target).proc == old(target).proc,
    {
        let mine = self.context;
        self.context = target.context;
        target.context = mine;
    }

    /// Record the thread id the scheduler assigned at registration:
    /// appends `tid` to the owning process's thread list, under the
    /// process's lock in the running kernel.  Called exactly once per
    /// thread.
    pub fn set_tid(&self, kernel: &mut Kernel, tid: usize)
        requires
            old(kernel).wf(),
            self.proc is Some,
            old(kernel).live(self.proc->Some_0 as int),
        ensures
            final(kernel).wf(),
            ({
                let h = self.proc->Some_0 as int;
                &&& final(kernel).live(h)
                &&& final(kernel).proc_at(h).threads@ == old(kernel).proc_at(h).threads@.push(tid)
                &&& proc_eq_except_threads(final(kernel).proc_at(h), old(kernel).proc_at(h))
                &&& forall|g: int|
                    0 <= g < old(kernel).procs@.len() && g != h ==> final(kernel).procs@[g] == old(
                        kernel,
                    ).procs@[g]
                &&& final(kernel).procs@.len() == old(kernel).procs@.len()
            }),
            final(kernel).table@ == old(kernel).table@,
            final(kernel).condvars@ == old(kernel).condvars@,
            final(kernel).spaces@ == old(kernel).spaces@,
            final(kernel).term_requests@ == old(kernel).term_requests@,
    {
        let h = match self.proc {
            Some(h) => h,
            None => 0,
        };
        match &mut kernel.procs[h] {
            Some(p) => {
                p.threads.push(tid);
            },
            None => {},
        }
        proof {
            assert forall|g: int| kernel.slot_ok(g) by {
                assert(old(kernel).slot_ok(g));
                if kernel.live(g) {
                    assert(old(kernel).live(g));
                    if g != h {
                        assert(kernel.proc_at(g) == old(kernel).proc_at(g));
                    }
                }
            }
            assert forall|ii: int|
                0 <= ii < kernel.table@.len() && (#[trigger] kernel.table@[ii]) is Some
                    && kernel.live(kernel.table@[ii]->Some_0 as int) implies kernel.proc_at(
                kernel.table@[ii]->Some_0 as int,
            ).pid.0 == ii by {
                assert(old(kernel).table@[ii] is Some);
            }
        }
    }
}

/// Whether two processes agree on every field but the thread list.
pub open spec fn proc_eq_except_threads(a: Process, b: Process) -> bool {
    &&& a.vm == b.vm
    &&& a.cwd@ == b.cwd@
    &&& a.futexes@ == b.futexes@
    &&& a.pid == b.pid
    &&& a.parent == b.parent
    &&& a.children@ == b.children@
    &&& a.child_exit == b.child_exit
    &&& a.child_exit_code@ == b.child_exit_code@
}

} // verus!
