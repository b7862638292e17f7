//! Interrupt mask control.
//!
//! The CPU's interrupt-delivery flag is modelled explicitly as an
//! [`IrqState`] value; the real flag register lives in the hardware and is
//! written by architecture code outside this library.  Save/restore is
//! token-based: `disable_and_store` hands back a snapshot of the flag
//! register and `restore` writes it back verbatim, so nested masked
//! sections compose without a depth counter — an inner restore does not
//! re-enable delivery while an outer section is still active.

use vstd::prelude::*;

verus! {

/// The interrupt-enable bit of the flag register (IF).
pub const IF_BIT: usize = 0x200;

/// The modelled interrupt-delivery state of one CPU.
#[derive(Clone, Copy, Debug, PartialEq, Eq, Structural)]
pub struct IrqState {
    /// Whether hardware interrupt delivery is currently enabled.
    pub enabled: bool,
}

/// The flag-register snapshot that encodes `enabled`.
pub open spec fn spec_token(enabled: bool) -> usize {
    if enabled {
        0x200usize
    } else {
        0usize
    }
}

/// Whether a snapshot token records an enabled state.
pub open spec fn token_enabled(flags: usize) -> bool {
    flags & 0x200 != 0
}

proof fn lemma_token_roundtrip(enabled: bool)
    ensures
        token_enabled(spec_token(enabled)) == enabled,
{
    assert(0x200usize & 0x200 != 0) by (bit_vector);
    assert(0usize & 0x200 == 0) by (bit_vector);
}

impl IrqState {
    /// A CPU state with interrupt delivery enabled.
    pub fn new_enabled() -> (r: IrqState)
        ensures
            r.enabled,
    {
        IrqState { enabled: true }
    }

    /// Unconditionally enable interrupt delivery.
    pub fn enable(&mut self)
        ensures
            final(self).enabled,
    {
        self.enabled = true;
    }

    /// Unconditionally disable interrupt delivery.
    pub fn disable(&mut self)
        ensures
            !final(self).enabled,
    {
        self.enabled = false;
    }

    /// Disable interrupt delivery and return a snapshot of the previous
    /// flag register, to be handed back to [`IrqState::restore`].
    pub fn disable_and_store(&mut self) -> (flags: usize)
        ensures
            !final(self).enabled,
            flags == spec_token(old(self).enabled),
            token_enabled(flags) == old(self).enabled,
    {
        let flags: usize = if self.enabled {
            IF_BIT
        } else {
            0
        };
        self.enabled = false;
        proof {
            lemma_token_roundtrip(old(self).enabled);
        }
        flags
    }

    /// Write back a previously captured snapshot, restoring exactly the
    /// delivery state at the time of capture — including a disabled state,
    /// so nesting is safe.
    pub fn restore(&mut self, flags: usize)
        ensures
            final(self).enabled == token_enabled(flags),
    {
        let e: bool = flags & IF_BIT != 0;
        self.enabled = e;
    }
}

/// Run `f` with interrupt delivery disabled, then restore the prior state,
/// whatever `f` left behind.
pub fn no_interrupt<F: FnOnce(IrqState) -> IrqState>(cpu: &mut IrqState, f: F)
    requires
        call_requires(f, ((IrqState { enabled: false }),)),
    ensures
        final(cpu).enabled == old(cpu).enabled,
        exists|s: IrqState| call_ensures(f, ((IrqState { enabled: false }),), s),
{
    let flags = cpu.disable_and_store();
    let after = f(IrqState { enabled: false });
    *cpu = after;
    cpu.restore(flags);
}

/// What [`IrqState::disable_and_store`] does: the new state and the token.
pub open spec fn spec_disable_and_store(s: IrqState) -> (IrqState, usize) {
    (IrqState { enabled: false }, spec_token(s.enabled))
}

/// What [`IrqState::restore`] does with a token.
pub open spec fn spec_restore(s: IrqState, flags: usize) -> IrqState {
    IrqState { enabled: token_enabled(flags) }
}

/// `disable_and_store` followed immediately by `restore` of the token it
/// returned, with no other interrupt-state mutation in between, leaves the
/// delivery flag exactly as it was before.
pub proof fn lemma_save_restore_roundtrip(s0: IrqState)
    ensures
        spec_restore(spec_disable_and_store(s0).0, spec_disable_and_store(s0).1) == s0,
{
    lemma_token_roundtrip(s0.enabled);
}

/// Save/restore is safe under nesting: after an outer and an inner
/// `disable_and_store`, the inner `restore` does not re-enable delivery
/// while the outer section is still active, and the outer `restore` is the
/// one that re-enables — exactly when delivery was enabled originally.
pub proof fn lemma_nested_save_restore(s0: IrqState)
    ensures
        ({
            let (s1, t0) = spec_disable_and_store(s0);
            let (s2, t1) = spec_disable_and_store(s1);
            let s3 = spec_restore(s2, t1);
            let s4 = spec_restore(s3, t0);
            !s3.enabled && s4 == s0
        }),
{
    lemma_token_roundtrip(s0.enabled);
    lemma_token_roundtrip(false);
}

} // verus!
