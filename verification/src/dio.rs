//! Digital I/O support types.

use vstd::prelude::*;

verus! {

/// Selects which of the FPGA's digital input filters a channel uses, or
/// none at all.
#[derive(Clone, Copy, PartialEq, Eq, Debug, Structural)]
pub enum DigitalInputFilterIndex {
    Unfiltered,
    Filter0,
    Filter1,
    Filter2,
}

impl DigitalInputFilterIndex {
    /// The index value the native layer uses for this selection.
    pub fn value(&self) -> (r: i32)
        ensures
            r == match *self {
                DigitalInputFilterIndex::Unfiltered => 0i32,
                DigitalInputFilterIndex::Filter0 => 1i32,
                DigitalInputFilterIndex::Filter1 => 2i32,
                DigitalInputFilterIndex::Filter2 => 3i32,
            },
    {
        match self {
            DigitalInputFilterIndex::Unfiltered => 0,
            DigitalInputFilterIndex::Filter0 => 1,
            DigitalInputFilterIndex::Filter1 => 2,
            DigitalInputFilterIndex::Filter2 => 3,
        }
    }
}

impl From<i32> for DigitalInputFilterIndex {
    fn from(value: i32) -> (r: Self) {
        match value {
            1 => Self::Filter0,
            2 => Self::Filter1,
            3 => Self::Filter2,
            _ => Self::Unfiltered,
        }
    }
}

impl vstd::std_specs::convert::FromSpecImpl<i32> for DigitalInputFilterIndex {
    open spec fn obeys_from_spec() -> bool {
        true
    }

    open spec fn from_spec(value: i32) -> Self {
        if value == 1 {
            Self::Filter0
        } else if value == 2 {
            Self::Filter1
        } else if value == 3 {
            Self::Filter2
        } else {
            Self::Unfiltered
        }
    }
}

} // verus!
