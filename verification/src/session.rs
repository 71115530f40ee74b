//! Scoped kernel-driver handling and the run's final report.
//!
//! Claiming the interface may require detaching an OS-level driver first.
//! That pairing is scoped: detach on entry exactly when the query reports a
//! driver active, reattach on exit exactly when a detach was performed — on
//! every exit path, whether the capture succeeded, failed or was abandoned.

use vstd::prelude::*;

verus! {

/// Whether to detach on entry: exactly when the query reported an active
/// kernel driver.
pub open spec fn spec_detach_on_entry(driver_active: bool) -> bool {
    driver_active
}

/// Remembers, for one capture session, whether the kernel driver was
/// detached on entry.
#[derive(Clone, Copy, Debug, PartialEq, Eq, Structural)]
pub struct KernelGuard {
    pub detached: bool,
}

impl KernelGuard {
    /// Entry decision: detach exactly when the query reported the driver
    /// active, and remember that decision.
    pub fn acquire(driver_active: bool) -> (r: KernelGuard)
        ensures
            r.detached == spec_detach_on_entry(driver_active),
    {
        KernelGuard { detached: driver_active }
    }

    /// Exit decision, to be honoured on every exit path: reattach exactly
    /// when a detach was performed.
    pub fn must_reattach(&self) -> (r: bool)
        ensures
            r == spec_must_reattach(*self),
    {
        self.detached
    }
}

/// Whether a guard asks for a reattach on exit.
pub open spec fn spec_must_reattach(g: KernelGuard) -> bool {
    g.detached
}

/// Reattachment occurs if and only if detachment had been performed. The
/// guard built on entry asks for a reattach on exit exactly when the entry
/// decision was to detach, and the exit decision depends on nothing else —
/// in particular not on how the capture went — so it holds on every exit
/// path alike.
pub proof fn lemma_reattach_iff_detach(driver_active: bool)
    ensures
        spec_must_reattach(KernelGuard { detached: spec_detach_on_entry(driver_active) })
            <==> spec_detach_on_entry(driver_active),
{
}

/// Whether an enumerated device carries the requested identifier pair.
/// Discovery opens the first device for which this holds; a device that
/// matches but cannot be opened does not stop the scan.
pub fn device_matches(vendor: u16, product: u16, want_vendor: u16, want_product: u16) -> (r: bool)
    ensures
        r == (vendor == want_vendor && product == want_product),
{
    vendor == want_vendor && product == want_product
}

/// What one whole run reports when it ends.
#[derive(Clone, Copy, Debug, PartialEq, Eq, Structural)]
pub enum RunReport {
    /// The image was captured and saved; the success message is printed.
    Saved,
    /// No device with the requested identifiers could be opened.
    DeviceNotFound,
    /// The device has no inbound endpoint of the requested transfer type;
    /// nothing is written and the run ends normally.
    NoReadableEndpoint,
    /// Configuration failed, so the capture yielded no data.
    CaptureFailed,
}

/// The report a run ends with, given how far it got. The stages are checked
/// in the order the run performs them: discovery, endpoint resolution,
/// configuration. Saving reports its own failures through the save plan and
/// does not change the run's report.
pub open spec fn spec_classify_run(
    device_found: bool,
    endpoint_found: bool,
    configured: bool,
) -> RunReport {
    if !device_found {
        RunReport::DeviceNotFound
    } else if !endpoint_found {
        RunReport::NoReadableEndpoint
    } else if !configured {
        RunReport::CaptureFailed
    } else {
        RunReport::Saved
    }
}

/// Classify a finished run for reporting.
pub fn classify_run(device_found: bool, endpoint_found: bool, configured: bool) -> (r: RunReport)
    ensures
        r == spec_classify_run(device_found, endpoint_found, configured),
{
    if !device_found {
        RunReport::DeviceNotFound
    } else if !endpoint_found {
        RunReport::NoReadableEndpoint
    } else if !configured {
        RunReport::CaptureFailed
    } else {
        RunReport::Saved
    }
}

} // verus!
