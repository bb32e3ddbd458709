//! Serial-port support types.

use vstd::prelude::*;

verus! {

/// When the serial driver flushes buffered writes to the wire.
#[derive(Debug, Clone, Copy, PartialEq, Eq, Structural)]
pub enum WriteMode {
    FlushOnAccess,
    FlushWhenFull,
}

impl WriteMode {
    /// The mode value the native layer uses.
    pub fn value(&self) -> (r: i32)
        ensures
            r == match *self {
                WriteMode::FlushOnAccess => 1i32,
                WriteMode::FlushWhenFull => 2i32,
            },
    {
        match self {
            WriteMode::FlushOnAccess => 1,
            WriteMode::FlushWhenFull => 2,
        }
    }
}

/// The flow-control discipline of a serial port.
#[derive(Debug, Clone, Copy, PartialEq, Eq, Structural)]
pub enum FlowControl {
    Disabled,
    XonXoff,
    RtsCts,
    DtrDsr,
}

impl FlowControl {
    /// The flow-control value the native layer uses.
    pub fn value(&self) -> (r: i32)
        ensures
            r == match *self {
                FlowControl::Disabled => 0i32,
                FlowControl::XonXoff => 1i32,
                FlowControl::RtsCts => 2i32,
                FlowControl::DtrDsr => 3i32,
            },
    {
        match self {
            FlowControl::Disabled => 0,
            FlowControl::XonXoff => 1,
            FlowControl::RtsCts => 2,
            FlowControl::DtrDsr => 3,
        }
    }
}

} // verus!
