use proc_core::boot::{init, init_driver, init_serial_early, probe_fb_info, BootState};
use proc_core::process::Kernel;
use proc_core::shell::{add_simple_kernel_shell, SHELL_ENTRY};
use proc_core::thread::{ExecContext, Thread};

#[test]
fn boot_latch_records_each_step() {
    let mut b = BootState::new();
    assert!(!b.serial_ready);
    assert!(!b.drivers_ready);
    init_serial_early(&mut b);
    assert!(b.serial_ready);
    init_driver(&mut b);
    assert!(b.drivers_ready);
}

#[test]
fn arch_driver_init_brings_up_serial() {
    let mut b = BootState::new();
    init(&mut b);
    assert!(b.serial_ready);
}

#[test]
fn framebuffer_probe_always_fails_on_this_board() {
    let r = probe_fb_info(1024, 768, 32);
    match r {
        Ok(_) => panic!("this board has no usable framebuffer"),
        Err(msg) => assert_eq!(msg, "Framebuffer not usable on malta board"),
    }
}

#[test]
fn new_init_is_a_bootstrap_placeholder() {
    let t = Thread::new_init();
    assert_eq!(t.context, ExecContext::Bootstrap);
    assert!(t.proc.is_none());
    assert!(t.vm.is_none());
    assert!(t.kstack.is_none());
}

#[test]
fn new_kernel_thread_gets_its_own_process() {
    let mut kernel = Kernel::new();
    let t = Thread::new_kernel(&mut kernel, 0x42, 7);
    assert_eq!(t.context, ExecContext::KernelEntry { entry: 0x42, arg: 7 });
    let h = t.proc.expect("a kernel thread owns a process");
    let p = kernel.procs[h].as_ref().unwrap();
    assert_eq!(p.pid.get(), 0);
    assert!(p.pid.is_init());
    assert_eq!(p.cwd, "/");
    assert!(p.parent.is_none());
    assert!(p.threads.is_empty());
    assert_eq!(Some(p.vm), t.vm);
}

#[test]
fn switch_to_swaps_exactly_the_contexts() {
    let mut kernel = Kernel::new();
    let mut a = Thread::new_kernel(&mut kernel, 1, 0);
    let mut b = Thread::new_kernel(&mut kernel, 2, 0);
    let (pa, pb) = (a.proc, b.proc);
    a.switch_to(&mut b);
    assert_eq!(a.context, ExecContext::KernelEntry { entry: 2, arg: 0 });
    assert_eq!(b.context, ExecContext::KernelEntry { entry: 1, arg: 0 });
    // everything but the contexts stays put
    assert_eq!(a.proc, pa);
    assert_eq!(b.proc, pb);
}

#[test]
fn set_tid_links_thread_into_its_process() {
    let mut kernel = Kernel::new();
    let t = Thread::new_kernel(&mut kernel, 1, 0);
    let h = t.proc.unwrap();
    t.set_tid(&mut kernel, 17);
    assert_eq!(kernel.procs[h].as_ref().unwrap().threads, vec![17]);
    t.set_tid(&mut kernel, 18);
    assert_eq!(kernel.procs[h].as_ref().unwrap().threads, vec![17, 18]);
}

#[test]
fn shell_thread_is_created_and_registered() {
    let mut kernel = Kernel::new();
    let t = add_simple_kernel_shell(&mut kernel);
    assert_eq!(t.context, ExecContext::KernelEntry { entry: SHELL_ENTRY, arg: 0 });
    let h = t.proc.unwrap();
    assert!(kernel.procs[h].is_some());
    assert_eq!(kernel.lookup(0), Some(h));
}
