//! Process entities and the process table.
//!
//! The running kernel keeps a process-wide registry of weak references to
//! processes, per-process parent/child links and exit-code storage, and a
//! per-process futex registry.  The model makes the ownership graph
//! explicit: a [`Kernel`] value owns an arena of processes, and every
//! non-owning reference — a table entry, a parent link, a child link — is a
//! handle into that arena.  A handle resolves like a weak reference: once
//! the process behind it has been dropped, resolution yields "absent",
//! never a crash.

use vstd::prelude::*;

use crate::condvar::Condvar;
use crate::memory::AddressSpace;
use crate::pid::Pid;

verus! {

/// One entry of a process's futex registry: a user-space address and the
/// condition variable created for it.
#[derive(Clone, Copy, Debug, PartialEq, Eq, Structural)]
pub struct FutexEntry {
    /// The user-space address the waiters key on.
    pub addr: usize,
    /// Handle of the condition variable in the kernel's arena.
    pub condvar: usize,
}

/// One entry of a parent's exit-code store: a terminated child's pid and
/// the code it exited with.
#[derive(Clone, Copy, Debug, PartialEq, Eq, Structural)]
pub struct ExitEntry {
    /// The child's pid.
    pub pid: usize,
    /// The child's exit code.
    pub code: usize,
}

/// The condition-variable handle registered for `addr`, first match wins.
pub open spec fn futex_lookup(fs: Seq<FutexEntry>, addr: usize) -> Option<usize>
    decreases fs.len(),
{
    if fs.len() == 0 {
        None
    } else if fs[0].addr == addr {
        Some(fs[0].condvar)
    } else {
        futex_lookup(fs.drop_first(), addr)
    }
}

/// The exit code stored for child `pid`, first match wins.
pub open spec fn exit_code_lookup(es: Seq<ExitEntry>, pid: usize) -> Option<usize>
    decreases es.len(),
{
    if es.len() == 0 {
        None
    } else if es[0].pid == pid {
        Some(es[0].code)
    } else {
        exit_code_lookup(es.drop_first(), pid)
    }
}

/// One address space and its bookkeeping.
#[derive(Clone, Debug)]
pub struct Process {
    /// Handle of the memory map in the kernel's arena; shared with every
    /// thread of this process.
    pub vm: usize,
    /// Working directory.
    pub cwd: String,
    /// Futex registry: one condition variable per distinct address, created
    /// lazily, never removed.
    pub futexes: Vec<FutexEntry>,
    /// Assigned exactly once, at registration.
    pub pid: Pid,
    /// Non-owning link to the parent process; absent for the init process.
    pub parent: Option<usize>,
    /// Non-owning links to the child processes.
    pub children: Vec<usize>,
    /// The threads currently belonging to this process.
    pub threads: Vec<usize>,
    /// Condition variable signaled whenever a child is about to terminate.
    pub child_exit: usize,
    /// Exit codes of terminated children, filled by the children.
    pub child_exit_code: Vec<ExitEntry>,
}

impl Process {
    /// Structural soundness of one process against the kernel's arenas:
    /// its handles point into them, its futex registry has one entry per
    /// address and one condition variable per entry, and its exit-code
    /// store has one entry per child pid.
    pub open spec fn fields_wf(&self, k: Kernel) -> bool {
        &&& self.vm < k.spaces@.len()
        &&& self.child_exit < k.condvars@.len()
        &&& forall|i: int|
            0 <= i < self.futexes@.len() ==> (#[trigger] self.futexes@[i]).condvar
                < k.condvars@.len()
        &&& forall|i: int, j: int|
            0 <= i < j < self.futexes@.len() ==> self.futexes@[i].addr != self.futexes@[j].addr
        &&& forall|i: int, j: int|
            0 <= i < j < self.futexes@.len() ==> self.futexes@[i].condvar
                != self.futexes@[j].condvar
        &&& match self.parent {
            Some(h) => h < k.procs@.len(),
            None => true,
        }
        &&& forall|i: int| 0 <= i < self.children@.len() ==> #[trigger] self.children@[i]
            < k.procs@.len()
        &&& forall|i: int, j: int|
            0 <= i < j < self.child_exit_code@.len() ==> self.child_exit_code@[i].pid
                != self.child_exit_code@[j].pid
    }

    /// A fresh process around address space `vm`, with `child_exit` as its
    /// exit condition variable: root working directory, empty futex
    /// registry, no parent, no children, no threads, no exit codes
    /// recorded, and a placeholder pid until registration assigns one.
    pub fn new(vm: usize, child_exit: usize) -> (p: Process)
        ensures
            p.vm == vm,
            p.child_exit == child_exit,
            p.cwd@ == "/"@,
            p.futexes@.len() == 0,
            p.pid.0 == 0,
            p.parent is None,
            p.children@.len() == 0,
            p.threads@.len() == 0,
            p.child_exit_code@.len() == 0,
    {
        Process {
            vm,
            cwd: "/".to_string(),
            futexes: Vec::new(),
            pid: Pid(0),
            parent: None,
            children: Vec::new(),
            threads: Vec::new(),
            child_exit: child_exit,
            child_exit_code: Vec::new(),
        }
    }
}

/// The explicit shared state of the lifecycle core: the process arena, the
/// pid table, and the arenas of condition variables and address spaces.
/// In the running kernel each piece sits behind its own lock; the model
/// makes each mutation a function of the whole value.
pub struct Kernel {
    /// Arena of processes; a slot turns `None` when the last owner of the
    /// process releases it.
    pub procs: Vec<Option<Process>>,
    /// The process table: pid to arena handle.  `None` is a vacant pid; an
    /// entry whose handle leads to a dropped process is stale and resolves
    /// to "not found".
    pub table: Vec<Option<usize>>,
    /// Arena of condition variables.
    pub condvars: Vec<Condvar>,
    /// Arena of address spaces.
    pub spaces: Vec<AddressSpace>,
    /// Thread ids whose termination has been requested of the scheduler,
    /// in request order.
    pub term_requests: Vec<usize>,
}

impl Kernel {
    /// Whether handle `h` resolves to a live process.
    pub open spec fn live(&self, h: int) -> bool {
        0 <= h < self.procs@.len() && self.procs@[h] is Some
    }

    /// The process behind handle `h`.
    pub open spec fn proc_at(&self, h: int) -> Process {
        self.procs@[h]->Some_0
    }

    /// Soundness of one arena slot: if it holds a live process, that
    /// process's fields are sound and its pid's table slot points back at
    /// the handle.
    pub open spec fn slot_ok(&self, h: int) -> bool {
        self.live(h) ==> {
            &&& self.proc_at(h).fields_wf(*self)
            &&& self.proc_at(h).pid.0 < self.table@.len()
            &&& self.table@[self.proc_at(h).pid.0 as int] is Some
            &&& self.table@[self.proc_at(h).pid.0 as int]->Some_0 == h
            &&& match self.proc_at(h).parent {
                Some(ph) => ph != h,
                None => true,
            }
        }
    }

    /// Well-formedness of the whole state: every live process's fields are
    /// sound, its pid is its table slot, and every table entry points into
    /// the arena.
    pub open spec fn wf(&self) -> bool {
        &&& forall|h: int| #[trigger] self.slot_ok(h)
        &&& forall|i: int|
            0 <= i < self.table@.len() && (#[trigger] self.table@[i]) is Some
                ==> self.table@[i]->Some_0 < self.procs@.len()
        &&& forall|i: int|
            0 <= i < self.table@.len() && (#[trigger] self.table@[i]) is Some && self.live(
                self.table@[i]->Some_0 as int,
            ) ==> self.proc_at(self.table@[i]->Some_0 as int).pid.0 == i
        &&& forall|s: int| 0 <= s < self.spaces@.len() ==> (#[trigger] self.spaces@[s]).wf()
    }

    /// An empty kernel: no process, no table entry, no condition variable,
    /// no address space, no termination request.
    pub fn new() -> (k: Kernel)
        ensures
            k.wf(),
            k.procs@.len() == 0,
            k.table@.len() == 0,
            k.condvars@.len() == 0,
            k.spaces@.len() == 0,
            k.term_requests@.len() == 0,
    {
        Kernel {
            procs: Vec::new(),
            table: Vec::new(),
            condvars: Vec::new(),
            spaces: Vec::new(),
            term_requests: Vec::new(),
        }
    }

    /// Assign a pid and put the process into the table.
    ///
    /// Scanning from 0, the first pid with no table entry — not even a
    /// stale one — is assigned: the deterministic lowest-available-integer
    /// policy, performed in the running kernel under the table's single
    /// lock so that concurrent registrations cannot claim the same pid.
    /// Returns the new process's arena handle.
    pub fn add_to_table(&mut self, p: Process) -> (h: usize)
        requires
            old(self).wf(),
            p.fields_wf(*old(self)),
            old(self).table@.len() < usize::MAX,
        ensures
            final(self).wf(),
            h == old(self).procs@.len(),
            final(self).live(h as int),
            final(self).procs@.len() == old(self).procs@.len() + 1,
            forall|g: int|
                0 <= g < old(self).procs@.len() ==> final(self).procs@[g] == old(self).procs@[g],
            // the registered process is the argument, with the fresh pid
            ({
                let q = final(self).proc_at(h as int);
                &&& q.vm == p.vm
                &&& q.cwd@ == p.cwd@
                &&& q.futexes@ == p.futexes@
                &&& q.parent == p.parent
                &&& q.children@ == p.children@
                &&& q.threads@ == p.threads@
                &&& q.child_exit == p.child_exit
                &&& q.child_exit_code@ == p.child_exit_code@
            }),
            // the pid is the smallest value with no table entry, stale ones
            // included, and its slot now holds the new process
            ({
                let pid = final(self).proc_at(h as int).pid.0;
                &&& pid <= old(self).table@.len()
                &&& (pid < old(self).table@.len() ==> old(self).table@[pid as int] is None)
                &&& forall|j: int| 0 <= j < pid ==> (#[trigger] old(self).table@[j]) is Some
                &&& pid < final(self).table@.len()
                &&& final(self).table@[pid as int] == Some(h)
                &&& final(self).table@.len() == (if pid == old(self).table@.len() {
                    old(self).table@.len() + 1
                } else {
                    old(self).table@.len()
                })
                &&& forall|j: int|
                    0 <= j < old(self).table@.len() && j != pid ==> final(self).table@[j]
                        == old(self).table@[j]
            }),
            final(self).condvars@ == old(self).condvars@,
            final(self).spaces@ == old(self).spaces@,
            final(self).term_requests@ == old(self).term_requests@,
    {
        // assign the first pid with no table entry
        let n = self.table.len();
        let mut pid: usize = 0;
        while pid < n && self.table[pid].is_some()
            invariant
                pid <= n,
                n == self.table@.len(),
                *self == *old(self),
                forall|j: int| 0 <= j < pid ==> (#[trigger] self.table@[j]) is Some,
            decreases n - pid,
        {
            pid = pid + 1;
        }
        let h = self.procs.len();
        let mut q = p;
        q.pid = Pid(pid);
        self.procs.push(Some(q));
        // put to process table
        if pid == n {
            self.table.push(Some(h));
        } else {
            self.table[pid] = Some(h);
        }
        proof {
            assert forall|g: int| self.slot_ok(g) by {
                assert(old(self).slot_ok(g));
                if self.live(g) && g < old(self).procs@.len() {
                    assert(old(self).live(g));
                    assert(self.proc_at(g) == old(self).proc_at(g));
                }
            }
        }
        h
    }

    /// Resolve a pid to the live process registered under it.  A vacant
    /// slot and a stale entry — one whose process has since been dropped —
    /// both yield `None`, the normal "not found" outcome for a non-owning
    /// table.
    pub fn lookup(&self, pid: usize) -> (r: Option<usize>)
        requires
            self.wf(),
        ensures
            match r {
                Some(h) => self.live(h as int) && self.proc_at(h as int).pid.0 == pid && pid
                    < self.table@.len() && self.table@[pid as int] == Some(h),
                None => pid < self.table@.len() ==> match self.table@[pid as int] {
                    Some(h) => !self.live(h as int),
                    None => true,
                },
            },
    {
        if pid >= self.table.len() {
            return None;
        }
        match self.table[pid] {
            None => None,
            Some(h) => {
                if self.procs[h].is_some() {
                    Some(h)
                } else {
                    None
                }
            },
        }
    }

    /// Remove the table entry for `pid`, making the pid available for
    /// reuse.  In the running kernel the wait collector does this once a
    /// child's exit code has been consumed.  The entry must no longer lead
    /// to a live process.
    pub fn remove_table_entry(&mut self, pid: usize)
        requires
            old(self).wf(),
            pid < old(self).table@.len(),
            match old(self).table@[pid as int] {
                Some(h) => !old(self).live(h as int),
                None => true,
            },
        ensures
            final(self).wf(),
            final(self).table@ == old(self).table@.update(pid as int, Option::<usize>::None),
            final(self).procs@ == old(self).procs@,
            final(self).condvars@ == old(self).condvars@,
            final(self).spaces@ == old(self).spaces@,
            final(self).term_requests@ == old(self).term_requests@,
    {
        self.table[pid] = None;
        proof {
            assert forall|g: int| self.slot_ok(g) by {
                assert(old(self).slot_ok(g));
            }
        }
    }

    /// Release the process behind handle `h`: what happens when its last
    /// owner — the last surviving thread, or an external wait collector —
    /// drops its reference.  The table entry, if any, becomes stale.
    pub fn drop_process(&mut self, h: usize)
        requires
            old(self).wf(),
            h < old(self).procs@.len(),
        ensures
            final(self).wf(),
            final(self).procs@ == old(self).procs@.update(h as int, Option::<Process>::None),
            final(self).table@ == old(self).table@,
            final(self).condvars@ == old(self).condvars@,
            final(self).spaces@ == old(self).spaces@,
            final(self).term_requests@ == old(self).term_requests@,
    {
        self.procs[h] = None;
        proof {
            assert forall|g: int| self.slot_ok(g) by {
                assert(old(self).slot_ok(g));
                if self.live(g) {
                    assert(old(self).live(g));
                    assert(self.proc_at(g) == old(self).proc_at(g));
                }
            }
        }
    }
    /// Look up the condition variable registered for user-space address
    /// `uaddr` in process `h`'s futex registry, creating one lazily on the
    /// first call.  Idempotent: repeated calls with the same pair return
    /// the same condition-variable handle; entries persist for the
    /// process's lifetime.
    pub fn get_futex(&mut self, h: usize, uaddr: usize) -> (cv: usize)
        requires
            old(self).wf(),
            old(self).live(h as int),
        ensures
            final(self).wf(),
            final(self).live(h as int),
            cv < final(self).condvars@.len(),
            futex_lookup(final(self).proc_at(h as int).futexes@, uaddr) == Some(cv),
            // a registered address keeps its condition variable: nothing moves
            futex_lookup(old(self).proc_at(h as int).futexes@, uaddr) is Some ==> {
                &&& cv == futex_lookup(old(self).proc_at(h as int).futexes@, uaddr)->Some_0
                &&& *final(self) == *old(self)
            },
            // a new address gets a fresh condition variable
            futex_lookup(old(self).proc_at(h as int).futexes@, uaddr) is None ==> {
                &&& cv == old(self).condvars@.len()
                &&& final(self).condvars@ == old(self).condvars@.push(
                    (Condvar { notified: 0 }),
                )
                &&& final(self).proc_at(h as int).futexes@ == old(self).proc_at(
                    h as int,
                ).futexes@.push((FutexEntry { addr: uaddr, condvar: cv }))
                &&& forall|a2: usize|
                    a2 != uaddr ==> #[trigger] futex_lookup(
                        final(self).proc_at(h as int).futexes@,
                        a2,
                    ) == futex_lookup(old(self).proc_at(h as int).futexes@, a2)
                &&& forall|g: int|
                    0 <= g < old(self).procs@.len() && g != h ==> final(self).procs@[g] == old(
                        self,
                    ).procs@[g]
                &&& final(self).procs@.len() == old(self).procs@.len()
                &&& proc_eq_except_futexes(
                    final(self).proc_at(h as int),
                    old(self).proc_at(h as int),
                )
            },
            final(self).table@ == old(self).table@,
            final(self).spaces@ == old(self).spaces@,
            final(self).term_requests@ == old(self).term_requests@,
    {
        let found = futex_find(&self.procs[h].as_ref().unwrap().futexes, uaddr);
        match found {
            Some(c) => {
                proof {
                    assert(self.slot_ok(h as int));
                    let i = lemma_futex_lookup_index(self.proc_at(h as int).futexes@, uaddr);
                }
                c
            },
            None => {
                let fresh = self.condvars.len();
                self.condvars.push(Condvar::new());
                match &mut self.procs[h] {
                    Some(p) => {
                        p.futexes.push(FutexEntry { addr: uaddr, condvar: fresh });
                    },
                    None => {},
                }
                proof {
                    let oldfs = old(self).proc_at(h as int).futexes@;
                    lemma_futex_lookup_none_no_entry(oldfs, uaddr);
                    lemma_futex_lookup_push(
                        oldfs,
                        FutexEntry { addr: uaddr, condvar: fresh as usize },
                        uaddr,
                    );
                    assert forall|g: int| self.slot_ok(g) by {
                        assert(old(self).slot_ok(g));
                        if self.live(g) && g != h {
                            assert(old(self).live(g));
                            assert(self.proc_at(g) == old(self).proc_at(g));
                        }
                    }
                }
                fresh
            },
        }
    }

    /// Whether process `h`'s parent link still resolves to a live process.
    pub open spec fn parent_live(&self, h: int) -> bool {
        match self.proc_at(h).parent {
            Some(ph) => self.live(ph as int),
            None => false,
        }
    }

    /// Exit the process behind handle `h`.
    ///
    /// Every owned thread's termination is requested of the scheduler, the
    /// intent recorded synchronously.  If the parent still resolves, the
    /// exit code is stored under this process's pid in the parent's
    /// exit-code map and exactly one notification is delivered to the
    /// parent's exit condition variable.  A parent that is already gone is
    /// a normal terminal state, not an error: the call completes with no
    /// notification and the code is simply never observed.  Exit never
    /// fails, and does not itself release the process: that happens when
    /// its last owner drops it.
    pub fn exit(&mut self, h: usize, exit_code: usize)
        requires
            old(self).wf(),
            old(self).live(h as int),
            old(self).parent_live(h as int) ==> old(self).condvars@[old(self).proc_at(
                old(self).proc_at(h as int).parent->Some_0 as int,
            ).child_exit as int].notified < u64::MAX,
        ensures
            final(self).wf(),
            // the intent to terminate every owned thread, in list order
            final(self).term_requests@ == old(self).term_requests@ + old(self).proc_at(
                h as int,
            ).threads@,
            final(self).table@ == old(self).table@,
            final(self).spaces@ == old(self).spaces@,
            final(self).procs@.len() == old(self).procs@.len(),
            final(self).procs@[h as int] == old(self).procs@[h as int],
            // a live parent is notified exactly once and records the code
            old(self).parent_live(h as int) ==> ({
                let ph = old(self).proc_at(h as int).parent->Some_0 as int;
                let child_pid = old(self).proc_at(h as int).pid.0;
                let oldp = old(self).proc_at(ph);
                let newp = final(self).proc_at(ph);
                &&& final(self).live(ph)
                &&& exit_code_lookup(newp.child_exit_code@, child_pid) == Some(exit_code)
                &&& forall|p2: usize|
                    p2 != child_pid ==> #[trigger] exit_code_lookup(newp.child_exit_code@, p2)
                        == exit_code_lookup(oldp.child_exit_code@, p2)
                &&& proc_eq_except_exit_codes(newp, oldp)
                &&& final(self).condvars@ == old(self).condvars@.update(
                    oldp.child_exit as int,
                    (Condvar { notified: (old(self).condvars@[oldp.child_exit as int].notified + 1) as u64 }),
                )
                &&& forall|g: int|
                    0 <= g < old(self).procs@.len() && g != ph ==> final(self).procs@[g] == old(
                        self,
                    ).procs@[g]
            }),
            // a vanished parent: no notification, no record, no error
            !old(self).parent_live(h as int) ==> {
                &&& final(self).procs@ == old(self).procs@
                &&& final(self).condvars@ == old(self).condvars@
            },
    {
        // quit all threads
        let threads = self.procs[h].as_ref().unwrap().threads.clone();
        proof {
            assert(threads@ =~= old(self).proc_at(h as int).threads@);
        }
        let mut i: usize = 0;
        while i < threads.len()
            invariant
                i <= threads.len(),
                self.procs@ == old(self).procs@,
                self.table@ == old(self).table@,
                self.condvars@ == old(self).condvars@,
                self.spaces@ == old(self).spaces@,
                threads@ == old(self).proc_at(h as int).threads@,
                self.term_requests@ == old(self).term_requests@ + threads@.take(i as int),
            decreases threads.len() - i,
        {
            self.term_requests.push(threads[i]);
            proof {
                assert(threads@.take(i + 1) =~= threads@.take(i as int).push(threads@[i as int]));
                assert(self.term_requests@ =~= old(self).term_requests@ + threads@.take(i + 1));
            }
            i = i + 1;
        }
        proof {
            assert(threads@.take(threads@.len() as int) =~= threads@);
        }
        // notify parent and fill exit code
        let parent = self.procs[h].as_ref().unwrap().parent;
        let child_pid = self.procs[h].as_ref().unwrap().pid.get();
        match parent {
            None => {
                proof {
                    assert forall|g: int| self.slot_ok(g) by {
                        assert(old(self).slot_ok(g));
                    }
                }
            },
            Some(ph) => {
                proof {
                    assert(old(self).slot_ok(h as int));
                }
                if self.procs[ph].is_some() {
                    let mut cv: usize = 0;
                    proof {
                        assert(old(self).slot_ok(ph as int));
                    }
                    match &mut self.procs[ph] {
                        Some(par) => {
                            exit_code_insert(&mut par.child_exit_code, child_pid, exit_code);
                            cv = par.child_exit;
                        },
                        None => {},
                    }
                    let cref = &mut self.condvars[cv];
                    cref.notify_one();
                    proof {
                        assert(self.proc_at(ph as int).pid == old(self).proc_at(ph as int).pid);
                        assert forall|g: int| self.slot_ok(g) by {
                            assert(old(self).slot_ok(g));
                            if self.live(g) {
                                assert(old(self).live(g));
                                if g != ph {
                                    assert(self.proc_at(g) == old(self).proc_at(g));
                                } else {
                                    assert(old(self).proc_at(g).fields_wf(*old(self)));
                                    assert(proc_eq_except_exit_codes(
                                        self.proc_at(g),
                                        old(self).proc_at(g),
                                    ));
                                }
                            }
                        }
                        assert forall|ii: int|
                            0 <= ii < self.table@.len() && (#[trigger] self.table@[ii]) is Some
                                && self.live(self.table@[ii]->Some_0 as int) implies self.proc_at(
                            self.table@[ii]->Some_0 as int,
                        ).pid.0 == ii by {
                            assert(old(self).table@[ii] is Some);
                        }
                    }
                } else {
                    proof {
                        assert forall|g: int| self.slot_ok(g) by {
                            assert(old(self).slot_ok(g));
                        }
                    }
                }
            },
        }
    }

    /// The exit code a terminated child stored under `child` in process
    /// `h`'s exit-code map, as a waiting parent reads it.
    pub fn get_child_exit_code(&self, h: usize, child: usize) -> (r: Option<usize>)
        requires
            self.wf(),
            self.live(h as int),
        ensures
            r == exit_code_lookup(self.proc_at(h as int).child_exit_code@, child),
    {
        let es = &self.procs[h].as_ref().unwrap().child_exit_code;
        let n = es.len();
        let mut i: usize = 0;
        proof {
            assert(es@.skip(0) =~= es@);
        }
        while i < n
            invariant
                i <= n,
                n == es@.len(),
                self.live(h as int),
                es@ == self.proc_at(h as int).child_exit_code@,
                exit_code_lookup(es@, child) == exit_code_lookup(es@.skip(i as int), child),
            decreases n - i,
        {
            let e = es[i];
            proof {
                assert(es@.skip(i as int)[0] == e);
                assert(es@.skip(i as int).drop_first() =~= es@.skip(i + 1));
            }
            if e.pid == child {
                return Some(e.code);
            }
            i = i + 1;
        }
        proof {
            assert(es@.skip(n as int) =~= Seq::<ExitEntry>::empty());
        }
        None
    }

}

/// Two live processes never share a pid: in a well-formed kernel, whatever
/// sequence of registrations, removals and drops led to it, distinct live
/// arena slots carry distinct pids.
pub proof fn lemma_live_pids_distinct(k: Kernel, h1: int, h2: int)
    requires
        k.wf(),
        k.live(h1),
        k.live(h2),
        h1 != h2,
    ensures
        k.proc_at(h1).pid.0 != k.proc_at(h2).pid.0,
{
    assert(k.slot_ok(h1));
    assert(k.slot_ok(h2));
}

/// Whether two processes agree on every field but the futex registry.
pub open spec fn proc_eq_except_futexes(a: Process, b: Process) -> bool {
    &&& a.vm == b.vm
    &&& a.cwd@ == b.cwd@
    &&& a.pid == b.pid
    &&& a.parent == b.parent
    &&& a.children@ == b.children@
    &&& a.threads@ == b.threads@
    &&& a.child_exit == b.child_exit
    &&& a.child_exit_code@ == b.child_exit_code@
}

/// Find the registry entry for `addr`.
fn futex_find(fs: &Vec<FutexEntry>, addr: usize) -> (r: Option<usize>)
    ensures
        r == futex_lookup(fs@, addr),
{
    let n = fs.len();
    let mut i: usize = 0;
    proof {
        assert(fs@.skip(0) =~= fs@);
    }
    while i < n
        invariant
            i <= n,
            n == fs@.len(),
            futex_lookup(fs@, addr) == futex_lookup(fs@.skip(i as int), addr),
        decreases n - i,
    {
        let e = fs[i];
        proof {
            assert(fs@.skip(i as int)[0] == e);
            assert(fs@.skip(i as int).drop_first() =~= fs@.skip(i + 1));
        }
        if e.addr == addr {
            return Some(e.condvar);
        }
        i = i + 1;
    }
    proof {
        assert(fs@.skip(n as int) =~= Seq::<FutexEntry>::empty());
    }
    None
}

/// An address the lookup misses has no entry at all.
proof fn lemma_futex_lookup_none_no_entry(fs: Seq<FutexEntry>, addr: usize)
    requires
        futex_lookup(fs, addr) is None,
    ensures
        forall|i: int| 0 <= i < fs.len() ==> (#[trigger] fs[i]).addr != addr,
    decreases fs.len(),
{
    if fs.len() > 0 {
        lemma_futex_lookup_none_no_entry(fs.drop_first(), addr);
        assert forall|i: int| 0 <= i < fs.len() implies (#[trigger] fs[i]).addr != addr by {
            if i > 0 {
                assert(fs.drop_first()[i - 1] == fs[i]);
            }
        }
    }
}

/// Appending an entry for a fresh address registers the new address and
/// leaves every other address's lookup as it was.
proof fn lemma_futex_lookup_push(fs: Seq<FutexEntry>, e: FutexEntry, addr: usize)
    requires
        futex_lookup(fs, addr) is None,
    ensures
        futex_lookup(fs.push(e), addr) == if e.addr == addr {
            Some(e.condvar)
        } else {
            Option::<usize>::None
        },
        forall|a2: usize|
            a2 != e.addr ==> #[trigger] futex_lookup(fs.push(e), a2) == futex_lookup(fs, a2),
    decreases fs.len(),
{
    let p = fs.push(e);
    if fs.len() == 0 {
        reveal_with_fuel(futex_lookup, 3);
        assert(p[0] == e);
        assert(p.drop_first() =~= Seq::<FutexEntry>::empty());
        assert forall|a2: usize|
            a2 != e.addr implies #[trigger] futex_lookup(p, a2) == futex_lookup(fs, a2) by {
            assert(futex_lookup(p, a2) == futex_lookup(p.drop_first(), a2));
        }
    } else {
        assert(p[0] == fs[0]);
        assert(p.drop_first() =~= fs.drop_first().push(e));
        lemma_futex_lookup_push(fs.drop_first(), e, addr);
        assert forall|a2: usize|
            a2 != e.addr implies #[trigger] futex_lookup(p, a2) == futex_lookup(fs, a2) by {
            if fs[0].addr == a2 {
                assert(futex_lookup(p, a2) == Some(fs[0].condvar));
                assert(futex_lookup(fs, a2) == Some(fs[0].condvar));
            } else {
                assert(futex_lookup(p, a2) == futex_lookup(fs.drop_first().push(e), a2));
                assert(futex_lookup(fs, a2) == futex_lookup(fs.drop_first(), a2));
            }
        }
    }
}

/// The first registry index holding `addr`.
proof fn lemma_futex_lookup_index(fs: Seq<FutexEntry>, addr: usize) -> (i: int)
    requires
        futex_lookup(fs, addr) is Some,
    ensures
        0 <= i < fs.len(),
        fs[i].addr == addr,
        fs[i].condvar == futex_lookup(fs, addr)->Some_0,
    decreases fs.len(),
{
    if fs[0].addr == addr {
        0
    } else {
        let j = lemma_futex_lookup_index(fs.drop_first(), addr);
        assert(fs.drop_first()[j] == fs[j + 1]);
        j + 1
    }
}

/// Condition-variable identity: in a sound futex registry, two different
/// addresses are registered to two distinct condition variables.
pub proof fn lemma_futex_identity(p: Process, k: Kernel, a1: usize, a2: usize)
    requires
        p.fields_wf(k),
        a1 != a2,
        futex_lookup(p.futexes@, a1) is Some,
        futex_lookup(p.futexes@, a2) is Some,
    ensures
        futex_lookup(p.futexes@, a1) != futex_lookup(p.futexes@, a2),
{
    let i1 = lemma_futex_lookup_index(p.futexes@, a1);
    let i2 = lemma_futex_lookup_index(p.futexes@, a2);
    assert(i1 != i2);
}

/// Whether two processes agree on every field but the exit-code store.
pub open spec fn proc_eq_except_exit_codes(a: Process, b: Process) -> bool {
    &&& a.vm == b.vm
    &&& a.cwd@ == b.cwd@
    &&& a.futexes@ == b.futexes@
    &&& a.pid == b.pid
    &&& a.parent == b.parent
    &&& a.children@ == b.children@
    &&& a.threads@ == b.threads@
    &&& a.child_exit == b.child_exit
}

/// Store `code` under `pid`, overwriting an earlier record for the same
/// pid, as a map insertion does.
fn exit_code_insert(es: &mut Vec<ExitEntry>, pid: usize, code: usize)
    requires
        forall|i: int, j: int|
            0 <= i < j < old(es)@.len() ==> old(es)@[i].pid != old(es)@[j].pid,
    ensures
        forall|i: int, j: int| 0 <= i < j < final(es)@.len() ==> final(es)@[i].pid != final(es)@[j].pid,
        exit_code_lookup(final(es)@, pid) == Some(code),
        forall|p2: usize|
            p2 != pid ==> #[trigger] exit_code_lookup(final(es)@, p2) == exit_code_lookup(
                old(es)@,
                p2,
            ),
    {
        let n = es.len();
        let mut i: usize = 0;
        while i < n
            invariant
                i <= n,
                n == es@.len(),
                *es == *old(es),
                forall|a: int, b: int|
                    0 <= a < b < old(es)@.len() ==> old(es)@[a].pid != old(es)@[b].pid,
                forall|j: int| 0 <= j < i ==> (#[trigger] es@[j]).pid != pid,
            decreases n - i,
        {
            if es[i].pid == pid {
                es[i] = ExitEntry { pid, code };
                proof {
                    lemma_exit_lookup_update(old(es)@, i as int, ExitEntry { pid, code });
                    assert forall|a: int, b: int| 0 <= a < b < es@.len() implies es@[a].pid
                        != es@[b].pid by {
                        assert(es@[a].pid == old(es)@[a].pid);
                        assert(es@[b].pid == old(es)@[b].pid);
                        assert(old(es)@[a].pid != old(es)@[b].pid);
                    }
                }
                return ;
            }
            i = i + 1;
        }
        es.push(ExitEntry { pid, code });
        proof {
            lemma_exit_lookup_no_entry_push(old(es)@, ExitEntry { pid, code });
        }
    }

/// Appending a record for a pid with no earlier entry registers it and
/// leaves every other pid's record as it was.
proof fn lemma_exit_lookup_no_entry_push(es: Seq<ExitEntry>, e: ExitEntry)
    requires
        forall|i: int| 0 <= i < es.len() ==> (#[trigger] es[i]).pid != e.pid,
    ensures
        exit_code_lookup(es.push(e), e.pid) == Some(e.code),
        forall|p2: usize|
            p2 != e.pid ==> #[trigger] exit_code_lookup(es.push(e), p2) == exit_code_lookup(es, p2),
    decreases es.len(),
{
    let p = es.push(e);
    if es.len() == 0 {
        assert(p[0] == e);
        assert(p.drop_first() =~= Seq::<ExitEntry>::empty());
        assert forall|p2: usize|
            p2 != e.pid implies #[trigger] exit_code_lookup(p, p2) == exit_code_lookup(es, p2) by {
            assert(exit_code_lookup(p, p2) == exit_code_lookup(p.drop_first(), p2));
        }
    } else {
        assert(p[0] == es[0]);
        assert(p.drop_first() =~= es.drop_first().push(e));
        assert forall|i: int| 0 <= i < es.drop_first().len() implies (#[trigger] es.drop_first()[
            i
        ]).pid != e.pid by {
            assert(es.drop_first()[i] == es[i + 1]);
        }
        lemma_exit_lookup_no_entry_push(es.drop_first(), e);
        assert(es[0].pid != e.pid);
        assert forall|p2: usize|
            p2 != e.pid implies #[trigger] exit_code_lookup(p, p2) == exit_code_lookup(es, p2) by {
            if es[0].pid == p2 {
                assert(exit_code_lookup(p, p2) == Some(es[0].code));
                assert(exit_code_lookup(es, p2) == Some(es[0].code));
            } else {
                assert(exit_code_lookup(p, p2) == exit_code_lookup(es.drop_first().push(e), p2));
                assert(exit_code_lookup(es, p2) == exit_code_lookup(es.drop_first(), p2));
            }
        }
    }
}

/// Overwriting the record at the first index holding a pid updates that
/// pid's lookup and no other.
proof fn lemma_exit_lookup_update(es: Seq<ExitEntry>, i: int, e: ExitEntry)
    requires
        0 <= i < es.len(),
        es[i].pid == e.pid,
        forall|j: int| 0 <= j < i ==> (#[trigger] es[j]).pid != e.pid,
    ensures
        exit_code_lookup(es.update(i, e), e.pid) == Some(e.code),
        forall|p2: usize|
            p2 != e.pid ==> #[trigger] exit_code_lookup(es.update(i, e), p2) == exit_code_lookup(
                es,
                p2,
            ),
    decreases es.len(),
{
    let u = es.update(i, e);
    if i == 0 {
        assert(u[0] == e);
        assert(u.drop_first() =~= es.drop_first());
        assert forall|p2: usize|
            p2 != e.pid implies #[trigger] exit_code_lookup(u, p2) == exit_code_lookup(es, p2) by {
            assert(exit_code_lookup(u, p2) == exit_code_lookup(u.drop_first(), p2));
            assert(exit_code_lookup(es, p2) == exit_code_lookup(es.drop_first(), p2));
        }
    } else {
        assert(u[0] == es[0]);
        assert(u.drop_first() =~= es.drop_first().update(i - 1, e));
        assert forall|j: int| 0 <= j < i - 1 implies (#[trigger] es.drop_first()[j]).pid != e.pid by {
            assert(es.drop_first()[j] == es[j + 1]);
        }
        assert(es.drop_first()[i - 1] == es[i]);
        lemma_exit_lookup_update(es.drop_first(), i - 1, e);
        assert(es[0].pid != e.pid);
        assert(exit_code_lookup(u, e.pid) == exit_code_lookup(es.drop_first().update(i - 1, e), e.pid));
        assert forall|p2: usize|
            p2 != e.pid implies #[trigger] exit_code_lookup(u, p2) == exit_code_lookup(es, p2) by {
            if es[0].pid == p2 {
                assert(exit_code_lookup(u, p2) == Some(es[0].code));
                assert(exit_code_lookup(es, p2) == Some(es[0].code));
            } else {
                assert(exit_code_lookup(u, p2) == exit_code_lookup(
                    es.drop_first().update(i - 1, e),
                    p2,
                ));
                assert(exit_code_lookup(es, p2) == exit_code_lookup(es.drop_first(), p2));
            }
        }
    }
}

} // verus!
