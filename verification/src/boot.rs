//! Board bring-up ordering.
//!
//! The serial port, the board drivers and the framebuffer probe do their
//! work in hardware; what the core owes them is an ordering discipline.
//! The early serial bring-up must run at most once — a second call is a
//! corrupted boot sequence, a fatal logic error rather than a recoverable
//! fault — so the one-shot guard is an explicit latch, checked and set in
//! one step.

use vstd::prelude::*;

verus! {

/// The boot-sequence latch: which bring-up steps have already run.
#[derive(Clone, Copy, Debug, PartialEq, Eq, Structural)]
pub struct BootState {
    /// Whether the early serial bring-up has run.
    pub serial_ready: bool,
    /// Whether the board's driver-initialization hook has run.
    pub drivers_ready: bool,
}

/// Framebuffer geometry reported by a successful display probe.
#[derive(Clone, Copy, Debug, PartialEq, Eq, Structural)]
pub struct FramebufferInfo {
    /// Visible width in pixels.
    pub xres: u32,
    /// Visible height in pixels.
    pub yres: u32,
    /// Bits per pixel.
    pub depth: u32,
}

impl BootState {
    /// The state at power-on: nothing has run yet.
    pub fn new() -> (b: BootState)
        ensures
            !b.serial_ready,
            !b.drivers_ready,
    {
        BootState { serial_ready: false, drivers_ready: false }
    }

}

/// Record the early serial bring-up of the board.  Must be called at most
/// once: the hardware poke itself happens at the board layer, which checks
/// this latch first and treats a second call as a fatal logic error, not a
/// recoverable fault.
pub fn init_serial_early(b: &mut BootState)
    requires
        !old(b).serial_ready,
    ensures
        final(b).serial_ready,
        final(b).drivers_ready == old(b).drivers_ready,
{
    b.serial_ready = true;
}

/// Record that the board's driver-initialization hook has run.  The hook
/// itself currently brings up no further drivers.
pub fn init_driver(b: &mut BootState)
    ensures
        final(b).drivers_ready,
        final(b).serial_ready == old(b).serial_ready,
{
    b.drivers_ready = true;
}

/// Initialize the architecture's drivers: on this board the serial port is
/// the one device brought up here.
pub fn init(b: &mut BootState)
    ensures
        final(b).serial_ready,
        final(b).drivers_ready == old(b).drivers_ready,
{
    b.serial_ready = true;
}

/// Probe for a usable framebuffer.  This board has no usable display
/// hardware, so every probe reports failure, whatever geometry is asked
/// for.
pub fn probe_fb_info(width: u32, height: u32, depth: u32) -> (r: Result<
    (FramebufferInfo, usize),
    String,
>)
    ensures
        r is Err,
        r->Err_0@ == "Framebuffer not usable on malta board"@,
{
    let _ = width;
    let _ = height;
    let _ = depth;
    Err("Framebuffer not usable on malta board".to_string())
}

} // verus!
