use proc_core::condvar::Condvar;
use proc_core::memory::AddressSpace;
use proc_core::process::{Kernel, Process};
use proc_core::syscall::{MemWindow, PciBus, PciDevice, PciSupport, SysError, Syscall};
use proc_core::thread::{ExecContext, Thread};

fn kernel_with_one_process() -> (Kernel, usize) {
    let mut kernel = Kernel::new();
    let vm = kernel.spaces.len();
    kernel.spaces.push(AddressSpace::new());
    let cv = kernel.condvars.len();
    kernel.condvars.push(Condvar::new());
    let p = Process::new(vm, cv);
    let h = kernel.add_to_table(p);
    (kernel, h)
}

fn one_device_bus() -> PciSupport {
    PciSupport::Bus(PciBus {
        devices: vec![PciDevice {
            vendor: 0x8086,
            product: 0x100e,
            bar0: Some(MemWindow { base: 0xf000_0000, len: 0x2_0000 }),
            driver_attached: true,
        }],
    })
}

#[test]
fn map_pci_device_not_found_mutates_nothing() {
    let (mut kernel, h) = kernel_with_one_process();
    let spaces_before = format!("{:?}", kernel.spaces);
    let mut bus = one_device_bus();
    let sys = Syscall { proc: h };
    let r = sys.sys_map_pci_device(&mut kernel, &mut bus, 0x1234, 0x5678);
    assert_eq!(r, Err(SysError::ENOENT));
    // no address-space mutation took place
    assert_eq!(format!("{:?}", kernel.spaces), spaces_before);
    match bus {
        PciSupport::Bus(b) => assert!(b.devices[0].driver_attached),
        PciSupport::Unsupported => panic!("bus support vanished"),
    }
}

#[test]
fn map_pci_device_unsupported_architecture() {
    let (mut kernel, h) = kernel_with_one_process();
    let mut bus = PciSupport::Unsupported;
    let sys = Syscall { proc: h };
    let r = sys.sys_map_pci_device(&mut kernel, &mut bus, 0x8086, 0x100e);
    assert_eq!(r, Err(SysError::ENOSYS));
}

#[test]
fn map_pci_device_maps_window_linearly() {
    let (mut kernel, h) = kernel_with_one_process();
    let mut bus = one_device_bus();
    let sys = Syscall { proc: h };
    let r = sys.sys_map_pci_device(&mut kernel, &mut bus, 0x8086, 0x100e);
    let va = r.expect("the device should be mapped");
    // the empty address space maps the window at the lowest free address
    assert_eq!(va, 0);
    let vm = kernel.procs[h].as_ref().unwrap().vm;
    let area = kernel.spaces[vm].areas[0];
    assert_eq!(area.start, va);
    assert_eq!(area.end, va + 0x2_0000);
    assert_eq!(area.phys, 0xf000_0000);
    assert!(area.user);
    // the kernel driver was detached on the way
    match bus {
        PciSupport::Bus(b) => assert!(!b.devices[0].driver_attached),
        PciSupport::Unsupported => panic!("bus support vanished"),
    }
    // the mapping translates linearly
    assert_eq!(kernel.spaces[vm].translate(va + 0x10), Some(0xf000_0010));
}

#[test]
fn map_pci_device_without_window_is_not_found() {
    let (mut kernel, h) = kernel_with_one_process();
    let mut bus = PciSupport::Bus(PciBus {
        devices: vec![PciDevice {
            vendor: 1,
            product: 2,
            bar0: None,
            driver_attached: false,
        }],
    });
    let sys = Syscall { proc: h };
    let r = sys.sys_map_pci_device(&mut kernel, &mut bus, 1, 2);
    assert_eq!(r, Err(SysError::ENOENT));
    let vm = kernel.procs[h].as_ref().unwrap().vm;
    assert!(kernel.spaces[vm].areas.is_empty());
}

#[test]
fn get_paddr_translates_and_degrades_to_zero() {
    let (mut kernel, h) = kernel_with_one_process();
    let vm = kernel.procs[h].as_ref().unwrap().vm;
    kernel.spaces[vm].push(0x1000, 0x2000, 0x9000, true);
    let sys = Syscall { proc: h };
    let vaddrs = vec![0x1000, 0x1800, 0x5000];
    let mut paddrs = vec![0; 3];
    let r = sys.sys_get_paddr(&kernel, &vaddrs, &mut paddrs);
    assert_eq!(r, Ok(0));
    assert_eq!(paddrs, vec![0x9000, 0x9800, 0]);
}

#[test]
fn tt_create_refused_admission_is_access_denied() {
    let (mut kernel, h) = kernel_with_one_process();
    let caller = Thread {
        context: ExecContext::KernelEntry { entry: 9, arg: 0 },
        kstack: None,
        clear_child_tid: 0,
        vm: Some(kernel.procs[h].as_ref().unwrap().vm),
        proc: Some(h),
    };
    let sys = Syscall { proc: h };
    let threads_before = kernel.procs[h].as_ref().unwrap().threads.clone();
    let (r, t) = sys.sys_tt_create(&mut kernel, &caller, 0, 0x7000, 100, 10, 5, None);
    assert_eq!(r, Err(SysError::EACCES));
    assert!(t.is_none());
    // the new context is not reachable from any process's thread list
    assert_eq!(kernel.procs[h].as_ref().unwrap().threads, threads_before);
}

#[test]
fn tt_create_admitted_registers_the_thread() {
    let (mut kernel, h) = kernel_with_one_process();
    let caller = Thread {
        context: ExecContext::KernelEntry { entry: 9, arg: 0 },
        kstack: None,
        clear_child_tid: 0,
        vm: Some(kernel.procs[h].as_ref().unwrap().vm),
        proc: Some(h),
    };
    let sys = Syscall { proc: h };
    let (r, t) = sys.sys_tt_create(&mut kernel, &caller, 0, 0x7000, 100, 10, 5, Some(4));
    assert_eq!(r, Ok(4));
    let t = t.expect("an admitted thread is handed back");
    assert_eq!(t.context, ExecContext::Cloned { stack_pointer: 0x7000 });
    assert_eq!(t.proc, Some(h));
    assert_eq!(kernel.procs[h].as_ref().unwrap().threads, vec![4]);
}
