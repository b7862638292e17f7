use proc_core::condvar::Condvar;
use proc_core::memory::AddressSpace;
use proc_core::process::{Kernel, Process};

fn fresh_process(kernel: &mut Kernel) -> Process {
    let vm = kernel.spaces.len();
    kernel.spaces.push(AddressSpace::new());
    let cv = kernel.condvars.len();
    kernel.condvars.push(Condvar::new());
    Process::new(vm, cv)
}

#[test]
fn pids_are_assigned_lowest_first() {
    let mut kernel = Kernel::new();
    let p0 = fresh_process(&mut kernel);
    let p1 = fresh_process(&mut kernel);
    let p2 = fresh_process(&mut kernel);
    let h0 = kernel.add_to_table(p0);
    let h1 = kernel.add_to_table(p1);
    let h2 = kernel.add_to_table(p2);
    assert_eq!(kernel.procs[h0].as_ref().unwrap().pid.get(), 0);
    assert_eq!(kernel.procs[h1].as_ref().unwrap().pid.get(), 1);
    assert_eq!(kernel.procs[h2].as_ref().unwrap().pid.get(), 2);
    assert!(kernel.procs[h0].as_ref().unwrap().pid.is_init());
    assert!(!kernel.procs[h1].as_ref().unwrap().pid.is_init());
}

#[test]
fn live_processes_never_share_a_pid() {
    let mut kernel = Kernel::new();
    let mut handles = Vec::new();
    for _ in 0..5 {
        let p = fresh_process(&mut kernel);
        handles.push(kernel.add_to_table(p));
    }
    // drop one in the middle and register two more
    kernel.drop_process(handles[2]);
    kernel.remove_table_entry(2);
    let p = fresh_process(&mut kernel);
    handles.push(kernel.add_to_table(p));
    let p = fresh_process(&mut kernel);
    handles.push(kernel.add_to_table(p));
    let mut pids = Vec::new();
    for h in handles {
        if let Some(p) = &kernel.procs[h] {
            pids.push(p.pid.get());
        }
    }
    let mut sorted = pids.clone();
    sorted.sort();
    sorted.dedup();
    assert_eq!(sorted.len(), pids.len());
}

#[test]
fn removed_pid_is_reused_lowest_first() {
    let mut kernel = Kernel::new();
    let p0 = fresh_process(&mut kernel);
    let p1 = fresh_process(&mut kernel);
    let p2 = fresh_process(&mut kernel);
    kernel.add_to_table(p0);
    let h1 = kernel.add_to_table(p1);
    kernel.add_to_table(p2);
    // pid 1 goes away entirely: process dropped, table entry removed
    kernel.drop_process(h1);
    kernel.remove_table_entry(1);
    let p = fresh_process(&mut kernel);
    let h = kernel.add_to_table(p);
    assert_eq!(kernel.procs[h].as_ref().unwrap().pid.get(), 1);
}

#[test]
fn stale_entry_blocks_pid_until_removed() {
    let mut kernel = Kernel::new();
    let p0 = fresh_process(&mut kernel);
    let h0 = kernel.add_to_table(p0);
    // the process is dropped but its table entry stays: the pid is not
    // reusable yet
    kernel.drop_process(h0);
    let p = fresh_process(&mut kernel);
    let h = kernel.add_to_table(p);
    assert_eq!(kernel.procs[h].as_ref().unwrap().pid.get(), 1);
}

#[test]
fn lookup_resolves_live_and_misses_stale() {
    let mut kernel = Kernel::new();
    let p0 = fresh_process(&mut kernel);
    let h0 = kernel.add_to_table(p0);
    assert_eq!(kernel.lookup(0), Some(h0));
    assert_eq!(kernel.lookup(7), None);
    kernel.drop_process(h0);
    // a stale entry resolves to "not found", never a crash
    assert_eq!(kernel.lookup(0), None);
}
