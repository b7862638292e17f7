//! Custom syscall surface: device mapping, address translation, periodic
//! thread creation.
//!
//! The pieces the kernel does not decide — which devices sit on the bus,
//! whether the scheduler admits a periodic thread — enter these functions
//! as explicit values: bus enumeration fills a [`PciBus`] outside the
//! core, and the scheduler's admission answer is handed in as the event it
//! is.  What the syscalls decide from those inputs is verified here.

use vstd::prelude::*;

use crate::memory::{fits_free, seq_translate};
use crate::process::Kernel;
use crate::thread::{ExecContext, Thread};

verus! {

/// Typed syscall error codes: the failure taxonomy, not a wire format.
#[derive(Clone, Copy, Debug, PartialEq, Eq, Structural)]
pub enum SysError {
    /// Resource not found: no matching device, or no memory window.
    ENOENT,
    /// The architecture lacks the feature.
    ENOSYS,
    /// The scheduler's admission control refused the request.
    EACCES,
}

/// A device's memory-mapped window: base physical address and length.
#[derive(Clone, Copy, Debug, PartialEq, Eq, Structural)]
pub struct MemWindow {
    /// First physical address of the window.
    pub base: usize,
    /// Length of the window in bytes.
    pub len: usize,
}

/// One device found by bus enumeration.
#[derive(Clone, Copy, Debug, PartialEq, Eq, Structural)]
pub struct PciDevice {
    /// Vendor identifier.
    pub vendor: u16,
    /// Product identifier.
    pub product: u16,
    /// The device's base-address-register memory window, absent when the
    /// device exposes none.
    pub bar0: Option<MemWindow>,
    /// Whether a kernel-mode driver is currently bound to the device.
    pub driver_attached: bool,
}

/// The enumerated PCI bus, filled by the bus driver outside the core.
#[derive(Clone, Debug)]
pub struct PciBus {
    /// The devices, in enumeration order.
    pub devices: Vec<PciDevice>,
}

/// Whether any enumerated device matches a vendor/product pair.
pub open spec fn bus_has_device(devices: Seq<PciDevice>, vendor: u16, product: u16) -> bool {
    exists|i: int|
        0 <= i < devices.len() && (#[trigger] devices[i]).vendor == vendor && devices[i].product
            == product
}

/// The index of the first device matching a vendor/product pair.
pub open spec fn bus_find(devices: Seq<PciDevice>, vendor: u16, product: u16) -> Option<usize>
    decreases devices.len(),
{
    if devices.len() == 0 {
        None
    } else if devices[0].vendor == vendor && devices[0].product == product {
        Some(0usize)
    } else {
        match bus_find(devices.drop_first(), vendor, product) {
            Some(i) => Some((i + 1) as usize),
            None => None,
        }
    }
}

/// A first match at index `i` is what `bus_find` names.
proof fn lemma_bus_find_first(devices: Seq<PciDevice>, vendor: u16, product: u16, i: int)
    requires
        0 <= i < devices.len(),
        devices.len() <= usize::MAX,
        devices[i].vendor == vendor,
        devices[i].product == product,
        forall|j: int|
            0 <= j < i ==> !((#[trigger] devices[j]).vendor == vendor && devices[j].product
                == product),
    ensures
        bus_find(devices, vendor, product) == Some(i as usize),
    decreases devices.len(),
{
    if i > 0 {
        assert forall|j: int|
            0 <= j < i - 1 implies !((#[trigger] devices.drop_first()[j]).vendor == vendor
            && devices.drop_first()[j].product == product) by {
            assert(devices.drop_first()[j] == devices[j + 1]);
        }
        assert(devices.drop_first()[i - 1] == devices[i]);
        lemma_bus_find_first(devices.drop_first(), vendor, product, i - 1);
    }
}

/// With no match anywhere, `bus_find` names nothing.
proof fn lemma_bus_find_none(devices: Seq<PciDevice>, vendor: u16, product: u16)
    requires
        forall|j: int|
            0 <= j < devices.len() ==> !((#[trigger] devices[j]).vendor == vendor
                && devices[j].product == product),
    ensures
        bus_find(devices, vendor, product) is None,
    decreases devices.len(),
{
    if devices.len() > 0 {
        assert forall|j: int|
            0 <= j < devices.drop_first().len() implies !((#[trigger] devices.drop_first()[
            j
        ]).vendor == vendor && devices.drop_first()[j].product == product) by {
            assert(devices.drop_first()[j] == devices[j + 1]);
        }
        lemma_bus_find_none(devices.drop_first(), vendor, product);
    }
}

impl PciBus {
    /// The index of the first device matching `vendor`/`product`.
    pub fn find_device(&self, vendor: u16, product: u16) -> (r: Option<usize>)
        ensures
            r == bus_find(self.devices@, vendor, product),
            match r {
                Some(i) => {
                    &&& i < self.devices@.len()
                    &&& self.devices@[i as int].vendor == vendor
                    &&& self.devices@[i as int].product == product
                    &&& forall|j: int|
                        0 <= j < i ==> !((#[trigger] self.devices@[j]).vendor == vendor
                            && self.devices@[j].product == product)
                },
                None => !bus_has_device(self.devices@, vendor, product),
            },
    {
        let n = self.devices.len();
        let mut i: usize = 0;
        while i < n
            invariant
                i <= n,
                n == self.devices@.len(),
                forall|j: int|
                    0 <= j < i ==> !((#[trigger] self.devices@[j]).vendor == vendor
                        && self.devices@[j].product == product),
            decreases n - i,
        {
            let d = self.devices[i];
            if d.vendor == vendor && d.product == product {
                proof {
                    lemma_bus_find_first(self.devices@, vendor, product, i as int);
                }
                return Some(i);
            }
            i = i + 1;
        }
        proof {
            lemma_bus_find_none(self.devices@, vendor, product);
        }
        None
    }

    /// Unbind the kernel driver from device `i`; reports whether one was
    /// bound.
    pub fn detach_driver(&mut self, i: usize) -> (r: bool)
        requires
            i < old(self).devices@.len(),
        ensures
            r == old(self).devices@[i as int].driver_attached,
            final(self).devices@ == old(self).devices@.update(
                i as int,
                (PciDevice { driver_attached: false, ..old(self).devices@[i as int] }),
            ),
    {
        let was = self.devices[i].driver_attached;
        let d = self.devices[i];
        self.devices[i] = PciDevice { driver_attached: false, ..d };
        was
    }

    /// The base-address-register memory window of device `i`.
    pub fn get_bar0_mem(&self, i: usize) -> (r: Option<MemWindow>)
        requires
            i < self.devices@.len(),
        ensures
            r == self.devices@[i as int].bar0,
    {
        self.devices[i].bar0
    }
}

/// Whether the running architecture has a PCI bus to enumerate.
#[derive(Clone, Debug)]
pub enum PciSupport {
    /// No bus support on this architecture.
    Unsupported,
    /// The enumerated bus.
    Bus(PciBus),
}

/// The result of a syscall: a non-negative value, or a typed error.
pub type SysResult = Result<usize, SysError>;

/// The per-call context of a syscall: which process issued it.
#[derive(Clone, Copy, Debug, PartialEq, Eq, Structural)]
pub struct Syscall {
    /// Arena handle of the calling process.
    pub proc: usize,
}

impl Syscall {
    /// Allocate a PCI device to user space: find the device by
    /// vendor/product, unbind its kernel driver, and map its
    /// base-address-register window linearly into the calling process's
    /// address space as a user-accessible region.  Fails with `ENOENT`
    /// when no device matches or no memory window is available, touching
    /// no address space; fails with `ENOSYS`, touching nothing, on an
    /// architecture without bus support.
    pub fn sys_map_pci_device(&self, kernel: &mut Kernel, bus: &mut PciSupport, vendor: usize, product: usize) -> (r: SysResult)
        requires
            old(kernel).wf(),
            old(kernel).live(self.proc as int),
        ensures
            final(kernel).wf(),
            final(kernel).procs@ == old(kernel).procs@,
            final(kernel).table@ == old(kernel).table@,
            final(kernel).condvars@ == old(kernel).condvars@,
            final(kernel).term_requests@ == old(kernel).term_requests@,
            final(kernel).spaces@.len() == old(kernel).spaces@.len(),
            *old(bus) is Unsupported ==> {
                &&& r == SysResult::Err(SysError::ENOSYS)
                &&& final(kernel).spaces@ == old(kernel).spaces@
                &&& *final(bus) == *old(bus)
            },
            // a pair that matches no enumerated device: not-found, and no
            // address-space mutation
            (*old(bus) matches PciSupport::Bus(b) && !bus_has_device(
                b.devices@,
                vendor as u16,
                product as u16,
            )) ==> {
                &&& r == SysResult::Err(SysError::ENOENT)
                &&& final(kernel).spaces@ == old(kernel).spaces@
                &&& *final(bus) == *old(bus)
            },
            // on success, the matched device's window is mapped linearly
            // at the returned address, in the caller's address space,
            // user-accessible, on a region that was free
            r matches Ok(va) ==> *old(bus) matches PciSupport::Bus(b) && ({
                let vm = old(kernel).proc_at(self.proc as int).vm as int;
                let oldareas = old(kernel).spaces@[vm].areas@;
                let newareas = final(kernel).spaces@[vm].areas@;
                &&& forall|s: int|
                    0 <= s < old(kernel).spaces@.len() && s != vm ==> final(kernel).spaces@[s]
                        == old(kernel).spaces@[s]
                &&& exists|i: int|
                    #![trigger b.devices@[i]]
                    {
                        &&& 0 <= i < b.devices@.len()
                        &&& b.devices@[i].vendor == vendor as u16
                        &&& b.devices@[i].product == product as u16
                        &&& b.devices@[i].bar0 matches Some(w) && {
                            &&& va + w.len <= usize::MAX
                            &&& fits_free(oldareas, va as int, w.len as int)
                            &&& newareas == oldareas.push(
                                (crate::memory::MemArea {
                                    start: va,
                                    end: (va + w.len) as usize,
                                    phys: w.base,
                                    user: true,
                                }),
                            )
                        }
                    }
            }),
            r is Err ==> final(kernel).spaces@ == old(kernel).spaces@,
            r is Err ==> (r == SysResult::Err(SysError::ENOENT) || r == SysResult::Err(
                SysError::ENOSYS,
            )),
            (r == SysResult::Err(SysError::ENOSYS)) <==> *old(bus) is Unsupported,
            // success is owed: when the first matching device has a window
            // the address width holds and a free region exists, the call
            // cannot fail
            (*old(bus) matches PciSupport::Bus(b) && ({
                let vm = old(kernel).proc_at(self.proc as int).vm as int;
                let oldareas = old(kernel).spaces@[vm].areas@;
                &&& bus_find(b.devices@, vendor as u16, product as u16) matches Some(di)
                    && b.devices@[di as int].bar0 matches Some(w) && {
                    &&& w.base + w.len <= usize::MAX
                    &&& exists|a: int| 0 <= a && #[trigger] fits_free(oldareas, a, w.len as int)
                }
            })) ==> r is Ok,
    {
        match bus {
            PciSupport::Unsupported => Err(SysError::ENOSYS),
            PciSupport::Bus(b) => {
                let tag = b.find_device(vendor as u16, product as u16);
                match tag {
                    None => Err(SysError::ENOENT),
                    Some(i) => {
                        // the kernel driver, if bound, is detached
                        let _detached = b.detach_driver(i);
                        match b.get_bar0_mem(i) {
                            None => Err(SysError::ENOENT),
                            Some(w) => {
                                let base = w.base;
                                let len = w.len;
                                if base > usize::MAX - len {
                                    // a window the address width cannot hold
                                    return Err(SysError::ENOENT);
                                }
                                proof {
                                    assert(old(kernel).slot_ok(self.proc as int));
                                }
                                let vm = kernel.procs[self.proc].as_ref().unwrap().vm;
                                let space = &kernel.spaces[vm];
                                match space.find_free_area(0, len) {
                                    None => Err(SysError::ENOENT),
                                    Some(va) => {
                                        let sref = &mut kernel.spaces[vm];
                                        sref.push(va, va + len, base, true);
                                        proof {
                                            assert forall|si: int|
                                                0 <= si < kernel.spaces@.len() implies (
                                            #[trigger] kernel.spaces@[si]).wf() by {
                                                if si != vm {
                                                    assert(kernel.spaces@[si] == old(
                                                        kernel,
                                                    ).spaces@[si]);
                                                    assert(old(kernel).spaces@[si].wf());
                                                }
                                            }
                                            assert forall|g: int| kernel.slot_ok(g) by {
                                                assert(old(kernel).slot_ok(g));
                                                if kernel.live(g) {
                                                    assert(old(kernel).live(g));
                                                    assert(kernel.proc_at(g) == old(
                                                        kernel,
                                                    ).proc_at(g));
                                                }
                                            }
                                        }
                                        Ok(va)
                                    },
                                }
                            },
                        }
                    },
                }
            },
        }
    }

    /// Get the start physical addresses of the frames mapped at a list of
    /// virtual addresses.  A per-entry miss degrades to a zero value
    /// rather than aborting the call; the call itself always succeeds.
    pub fn sys_get_paddr(&self, kernel: &Kernel, vaddrs: &Vec<usize>, paddrs: &mut Vec<usize>) -> (r: SysResult)
        requires
            kernel.wf(),
            kernel.live(self.proc as int),
            old(paddrs)@.len() == vaddrs@.len(),
        ensures
            r == SysResult::Ok(0usize),
            final(paddrs)@.len() == vaddrs@.len(),
            forall|i: int|
                0 <= i < vaddrs@.len() ==> final(paddrs)@[i] == match seq_translate(
                    kernel.spaces@[kernel.proc_at(self.proc as int).vm as int].areas@,
                    vaddrs@[i],
                ) {
                    Some(pa) => pa,
                    None => 0usize,
                },
    {
        proof {
            assert(kernel.slot_ok(self.proc as int));
        }
        let vm = kernel.procs[self.proc].as_ref().unwrap().vm;
        let space = &kernel.spaces[vm];
        let n = vaddrs.len();
        let mut i: usize = 0;
        while i < n
            invariant
                i <= n,
                n == vaddrs@.len(),
                paddrs@.len() == n,
                kernel.wf(),
                kernel.live(self.proc as int),
                vm == kernel.proc_at(self.proc as int).vm,
                vm < kernel.spaces@.len(),
                space == &kernel.spaces@[vm as int],
                space.wf(),
                forall|j: int|
                    0 <= j < i ==> paddrs@[j] == match seq_translate(
                        kernel.spaces@[vm as int].areas@,
                        vaddrs@[j],
                    ) {
                        Some(pa) => pa,
                        None => 0usize,
                    },
            decreases n - i,
        {
            let pa = match space.translate(vaddrs[i]) {
                Some(pa) => pa,
                None => 0,
            };
            paddrs[i] = pa;
            i = i + 1;
        }
        Ok(0)
    }

    /// Create a new thread in the calling process: clone the calling
    /// thread's execution context onto stack pointer `newsp` and ask the
    /// scheduler to admit it with period `cycle`, phase `offset` and time
    /// budget `max_time`.  The scheduler's answer arrives as `admission`:
    /// the tid it assigned, or `None` when admission control refused.  On
    /// admission the new thread is recorded in the process's thread list,
    /// detached, and handed back for registration; on refusal the call
    /// fails with `EACCES` and no new context is reachable from any
    /// process's thread list.
    pub fn sys_tt_create(
        &self,
        kernel: &mut Kernel,
        caller: &Thread,
        flags: usize,
        newsp: usize,
        cycle: usize,
        offset: usize,
        max_time: usize,
        admission: Option<usize>,
    ) -> (r: (SysResult, Option<Thread>))
        requires
            old(kernel).wf(),
            old(kernel).live(self.proc as int),
            caller.proc == Some(self.proc),
        ensures
            final(kernel).wf(),
            final(kernel).table@ == old(kernel).table@,
            final(kernel).condvars@ == old(kernel).condvars@,
            final(kernel).spaces@ == old(kernel).spaces@,
            final(kernel).term_requests@ == old(kernel).term_requests@,
            // scheduler-refused admission: access denied, and the new
            // context is not reachable from any process's thread list
            admission is None ==> {
                &&& r.0 == SysResult::Err(SysError::EACCES)
                &&& r.1 is None
                &&& final(kernel).procs@ == old(kernel).procs@
            },
            admission matches Some(tid) ==> ({
                let h = self.proc as int;
                &&& r.0 == SysResult::Ok(tid)
                &&& r.1 matches Some(t) && t.context == (ExecContext::Cloned {
                    stack_pointer: newsp,
                }) && t.proc == Some(self.proc) && t.vm == caller.vm
                &&& final(kernel).proc_at(h).threads@ == old(kernel).proc_at(
                    h,
                ).threads@.push(tid)
                &&& crate::thread::proc_eq_except_threads(
                    final(kernel).proc_at(h),
                    old(kernel).proc_at(h),
                )
                &&& forall|g: int|
                    0 <= g < old(kernel).procs@.len() && g != h ==> final(kernel).procs@[g] == old(
                        kernel,
                    ).procs@[g]
                &&& final(kernel).procs@.len() == old(kernel).procs@.len()
            }),
    {
        let _ = flags;
        let _ = cycle;
        let _ = offset;
        let _ = max_time;
        let new_thread = Thread {
            context: ExecContext::Cloned { stack_pointer: newsp },
            kstack: Some(crate::thread::KernelStack { size: crate::thread::KSTACK_SIZE }),
            clear_child_tid: 0,
            vm: caller.vm,
            proc: Some(self.proc),
        };
        match admission {
            Some(tid) => {
                new_thread.set_tid(kernel, tid);
                (Ok(tid), Some(new_thread))
            },
            None => (Err(SysError::EACCES), None),
        }
    }
}

} // verus!
