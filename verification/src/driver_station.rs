//! Driver-station state decoding.
//!
//! The native layer reports the robot's control state as a packed 32-bit
//! word; the accessors here decode its bit fields.

use vstd::prelude::*;

verus! {

/// The driver station's packed control word. The low six bits are flags,
/// in order: enabled, autonomous, test, emergency stop, FMS attached,
/// DS attached; the remaining bits are reserved.
#[derive(Debug, Clone, Copy, PartialEq, Eq, Structural)]
pub struct ControlWord(pub u32);

impl ControlWord {
    /// True when the robot is enabled.
    pub fn enabled(&self) -> (r: bool)
        ensures
            r == (self.0 & 0b1 != 0),
    {
        self.0 & 0b1 != 0
    }

    /// True when the robot is in autonomous mode.
    pub fn autonomous(&self) -> (r: bool)
        ensures
            r == (self.0 & 0b10 != 0),
    {
        self.0 & 0b10 != 0
    }

    /// True when the robot is in test mode.
    pub fn test(&self) -> (r: bool)
        ensures
            r == (self.0 & 0b100 != 0),
    {
        self.0 & 0b100 != 0
    }

    /// True when the robot is emergency-stopped.
    pub fn estop(&self) -> (r: bool)
        ensures
            r == (self.0 & 0b1000 != 0),
    {
        self.0 & 0b1000 != 0
    }

    /// True when a field-management system is attached.
    pub fn fms_attached(&self) -> (r: bool)
        ensures
            r == (self.0 & 0b10000 != 0),
    {
        self.0 & 0b10000 != 0
    }

    /// True when a driver station is attached.
    pub fn ds_attached(&self) -> (r: bool)
        ensures
            r == (self.0 & 0b100000 != 0),
    {
        self.0 & 0b100000 != 0
    }

    /// The reserved upper bits of the word.
    pub fn reserved(&self) -> (r: u32)
        ensures
            r == self.0 >> 6,
    {
        self.0 >> 6
    }
}

} // verus!
