//! Simulated-device support types.

use vstd::prelude::*;

verus! {

/// Direction of a simulated device value, as seen from the robot program.
#[derive(Debug, PartialEq, Eq, Clone, Copy, Structural)]
pub enum SimValueDirection {
    Input,
    Output,
    Bidir,
}

impl SimValueDirection {
    /// The direction value the native layer uses.
    pub fn value(&self) -> (r: i32)
        ensures
            r == match *self {
                SimValueDirection::Input => 0i32,
                SimValueDirection::Output => 1i32,
                SimValueDirection::Bidir => 2i32,
            },
    {
        match self {
            SimValueDirection::Input => 0,
            SimValueDirection::Output => 1,
            SimValueDirection::Bidir => 2,
        }
    }
}

} // verus!
