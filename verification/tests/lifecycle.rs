use proc_core::condvar::Condvar;
use proc_core::memory::AddressSpace;
use proc_core::process::{Kernel, Process};

fn fresh_process(kernel: &mut Kernel) -> Process {
    let vm = kernel.spaces.len();
    kernel.spaces.push(AddressSpace::new());
    let cv = kernel.condvars.len();
    kernel.condvars.push(Condvar::new());
    Process::new(vm, cv)
}

#[test]
fn futex_lookup_is_idempotent() {
    let mut kernel = Kernel::new();
    let p = fresh_process(&mut kernel);
    let h = kernel.add_to_table(p);
    let cv1 = kernel.get_futex(h, 0x1000);
    let cv2 = kernel.get_futex(h, 0x1000);
    // the same (process, address) pair returns the same identity
    assert_eq!(cv1, cv2);
    let cv3 = kernel.get_futex(h, 0x2000);
    // a different address returns a distinct instance
    assert_ne!(cv1, cv3);
    let cv4 = kernel.get_futex(h, 0x2000);
    assert_eq!(cv3, cv4);
}

#[test]
fn futexes_are_per_process() {
    let mut kernel = Kernel::new();
    let pa = fresh_process(&mut kernel);
    let pb = fresh_process(&mut kernel);
    let ha = kernel.add_to_table(pa);
    let hb = kernel.add_to_table(pb);
    let cva = kernel.get_futex(ha, 0x1000);
    let cvb = kernel.get_futex(hb, 0x1000);
    assert_ne!(cva, cvb);
}

#[test]
fn exit_with_live_parent_records_code_and_notifies_once() {
    let mut kernel = Kernel::new();
    let parent = fresh_process(&mut kernel);
    let hp = kernel.add_to_table(parent);
    let mut child = fresh_process(&mut kernel);
    child.parent = Some(hp);
    let hc = kernel.add_to_table(child);
    kernel.procs[hp].as_mut().unwrap().children.push(hc);
    let child_pid = kernel.procs[hc].as_ref().unwrap().pid.get();
    let parent_cv = kernel.procs[hp].as_ref().unwrap().child_exit;

    kernel.exit(hc, 7);

    assert_eq!(kernel.get_child_exit_code(hp, child_pid), Some(7));
    // exactly one notification was delivered
    assert_eq!(kernel.condvars[parent_cv].notify_count(), 1);
}

#[test]
fn exit_requests_termination_of_every_thread() {
    let mut kernel = Kernel::new();
    let p = fresh_process(&mut kernel);
    let h = kernel.add_to_table(p);
    kernel.procs[h].as_mut().unwrap().threads.push(11);
    kernel.procs[h].as_mut().unwrap().threads.push(12);
    kernel.exit(h, 0);
    assert_eq!(kernel.term_requests, vec![11, 12]);
}

#[test]
fn exit_with_vanished_parent_is_silent() {
    let mut kernel = Kernel::new();
    let parent = fresh_process(&mut kernel);
    let hp = kernel.add_to_table(parent);
    let mut child = fresh_process(&mut kernel);
    child.parent = Some(hp);
    let hc = kernel.add_to_table(child);
    let parent_cv = kernel.procs[hp].as_ref().unwrap().child_exit;
    // the parent is gone before the child exits
    kernel.drop_process(hp);

    kernel.exit(hc, 3);

    // no notification was delivered anywhere
    assert_eq!(kernel.condvars[parent_cv].notify_count(), 0);
    for cv in &kernel.condvars {
        assert_eq!(cv.notify_count(), 0);
    }
}

#[test]
fn exit_without_parent_is_silent() {
    let mut kernel = Kernel::new();
    let p = fresh_process(&mut kernel);
    let h = kernel.add_to_table(p);
    kernel.exit(h, 1);
    for cv in &kernel.condvars {
        assert_eq!(cv.notify_count(), 0);
    }
}

#[test]
fn parent_waits_on_child_exit_end_to_end() {
    let mut kernel = Kernel::new();
    // three earlier processes so that A receives pid 3
    for _ in 0..3 {
        let p = fresh_process(&mut kernel);
        kernel.add_to_table(p);
    }
    let a = fresh_process(&mut kernel);
    let ha = kernel.add_to_table(a);
    assert_eq!(kernel.procs[ha].as_ref().unwrap().pid.get(), 3);
    // A forks conceptually into child B
    let mut b = fresh_process(&mut kernel);
    b.parent = Some(ha);
    let hb = kernel.add_to_table(b);
    kernel.procs[ha].as_mut().unwrap().children.push(hb);
    let b_pid = kernel.procs[hb].as_ref().unwrap().pid.get();
    let a_cv = kernel.procs[ha].as_ref().unwrap().child_exit;

    // B exits with code 42
    kernel.exit(hb, 42);

    // A's exit-code map now contains {B.pid: 42} and A's wait-condvar has
    // been signaled once
    assert_eq!(kernel.get_child_exit_code(ha, b_pid), Some(42));
    assert_eq!(kernel.condvars[a_cv].notify_count(), 1);

    // a subsequent wait in A observes exit code 42 for B's pid
    let observed = kernel.get_child_exit_code(ha, b_pid);
    assert_eq!(observed, Some(42));

    // once A drops its last reference to B's process, B's table entry is
    // absent
    kernel.drop_process(hb);
    assert_eq!(kernel.lookup(b_pid), None);
}
