//! Condition variables.
//!
//! A kernel condition variable is a wait/notify primitive; blocking itself
//! happens in the scheduler, outside this model.  What the model tracks is
//! the observable effect a notifier produces: how many notifications have
//! been delivered to the variable.  `notify_one` wakes at most one waiter;
//! no ordering is guaranteed among several.

use vstd::prelude::*;

verus! {

/// One wait/notify primitive, identified by its slot in the kernel's
/// condition-variable arena.
#[derive(Clone, Copy, Debug, PartialEq, Eq, Structural)]
pub struct Condvar {
    /// How many notifications have been delivered so far.
    pub notified: u64,
}

impl Condvar {
    /// A fresh condition variable with no notification delivered yet.
    pub fn new() -> (r: Condvar)
        ensures
            r.notified == 0,
    {
        Condvar { notified: 0 }
    }

    /// Deliver one notification: at least one blocked waiter, if any exist
    /// at the time of the call, is woken.
    pub fn notify_one(&mut self)
        requires
            self.notified < u64::MAX,
        ensures
            final(self).notified == old(self).notified + 1,
    {
        self.notified = self.notified + 1;
    }

    /// How many notifications have been delivered.
    pub fn notify_count(&self) -> (r: u64)
        ensures
            r == self.notified,
    {
        self.notified
    }
}

} // verus!
