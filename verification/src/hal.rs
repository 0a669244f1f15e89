//! Models of the host kernel's hardware abstractions.
//!
//! The drivers are written against a GPIO pin abstraction (drive-high /
//! drive-low on an output line) and a monotonic alarm (read the current
//! tick, schedule a one-shot firing at an absolute tick, enable, disable).
//! Both are modelled here with plain values: a pin operation is recorded
//! as a [`PinOp`], and the alarm is a record of its observable state.
//! A host harness performs the recorded operations on real hardware and
//! delivers `fired` events back to the driver.

use vstd::prelude::*;

verus! {

/// One of the three output lines the display driver holds.
#[derive(Clone, Copy, Debug, PartialEq, Eq, Structural)]
pub enum PinId {
    Latch,
    Clock,
    Data,
}

/// A single operation on an output line: drive it high or low.
#[derive(Clone, Copy, Debug, PartialEq, Eq, Structural)]
pub enum PinOp {
    High(PinId),
    Low(PinId),
}

/// The observable state of the host's one-shot alarm.
///
/// `now` is the monotonic counter, advanced by the host between driver
/// entries; `freq` is the counter's rate in ticks per second. `pending`
/// holds the absolute tick of the scheduled firing, if one is scheduled.
/// Tick arithmetic wraps around.
#[derive(Clone, Copy, Debug, PartialEq, Eq, Structural)]
pub struct AlarmModel {
    pub now: u32,
    pub freq: u32,
    pub enabled: bool,
    pub pending: Option<u32>,
}

impl AlarmModel {
    /// A fresh alarm: disabled, nothing scheduled.
    pub fn new(now: u32, freq: u32) -> (a: AlarmModel)
        ensures
            a == (AlarmModel { now, freq, enabled: false, pending: None }),
    {
        AlarmModel { now, freq, enabled: false, pending: None }
    }

    /// The host advances the monotonic counter; nothing else changes.
    pub fn advance(&mut self, now: u32)
        ensures
            *final(self) == (AlarmModel { now, ..*old(self) }),
    {
        self.now = now;
    }
}

} // verus!
