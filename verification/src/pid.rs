//! Process identifiers.
//!
//! A pid is an opaque non-negative integer; identity, equality and ordering
//! are those of the wrapped integer.  Pid 0 is reserved for the init process.

use vstd::prelude::*;

verus! {

/// Pid type, a strongly typed process identifier.
#[derive(Clone, Copy, Debug, PartialEq, Eq, Structural)]
pub struct Pid(pub usize);

impl Pid {
    /// The raw integer behind the identifier.
    pub fn get(&self) -> (r: usize)
        ensures
            r == self.0,
    {
        self.0
    }

    /// Return whether this pid represents the init process.
    pub fn is_init(&self) -> (r: bool)
        ensures
            r == (self.0 == 0),
    {
        self.0 == 0
    }
}

} // verus!
