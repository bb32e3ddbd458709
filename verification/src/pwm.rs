//! PWM output support types.

use vstd::prelude::*;

verus! {

/// Pulse-width bounds for a PWM channel, in microseconds: the full range,
/// the deadband around the center, and the center itself.
#[derive(Debug, PartialEq, Eq, Clone, Copy, Structural)]
pub struct PWMConfig {
    pub max: i32,
    pub deadband_max: i32,
    pub center: i32,
    pub deadband_min: i32,
    pub min: i32,
}

impl Default for PWMConfig {
    fn default() -> (r: Self)
        ensures
            r == (PWMConfig { max: 0i32, deadband_max: 0i32, center: 0i32, deadband_min: 0i32, min: 0i32 }),
    {
        PWMConfig { max: 0, deadband_max: 0, center: 0, deadband_min: 0, min: 0 }
    }
}

} // verus!
