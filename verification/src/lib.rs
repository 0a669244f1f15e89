//! Two small drivers for an embedded host kernel: a per-application
//! "hello" counter driver and a multiplexed 4-digit seven-segment
//! display driver with shift-register bit-banging and periodic refresh.
//!
//! The host kernel's collaborators — GPIO pins, the one-shot alarm,
//! per-application grant storage and scheduled callbacks — are modelled
//! as plain values, so every driver decision is a verified function from
//! state and event to next state; the pin edges and callback invocations
//! a real host would perform are recorded as traces.

use vstd::prelude::*;

pub mod encoder;
pub mod hal;
pub mod hello;
pub mod laws;
pub mod sevenseg;

verus! {

/// The result a driver hands back to a system call, mirroring the host
/// kernel's return codes: plain success, success carrying a value, an
/// unknown command, or a generic failure (reserved for the host's
/// grant-entry errors, which the drivers surface unchanged).
#[derive(Clone, Copy, Debug, PartialEq, Eq, Structural)]
pub enum ReturnCode {
    Success,
    SuccessWithValue { value: usize },
    NotSupported,
    Fail,
}

} // verus!
