//! Errors the driver surfaces to its callers.

use vstd::prelude::*;

verus! {

/// A fault reported while talking to the display hardware.
///
/// Faults are surfaced immediately and unmodified; the driver never
/// retries, and a failed step leaves the controller in an undefined
/// intermediate state.
#[derive(Debug)]
pub enum Error<CommE, PinE> {
    /// The communication interface reported a fault.
    Comm(CommE),
    /// The GPIO pin driver reported a fault.
    Pin(PinE),
}

} // verus!
