//! Safe, contract-checked core of a hardware-abstraction-layer (HAL) binding
//! crate for roboRIO-class devices.
//!
//! The native library that performs the actual device I/O is linked by the
//! surrounding application; this crate holds the pure logic of the binding
//! layer: status-code translation, bit-field decoding, value marshaling, and
//! the Maven artifact path construction used to obtain the native libraries.

use vstd::prelude::*;

pub mod can;
pub mod can_api;
pub mod datalog;
pub mod dio;
pub mod dma;
pub mod driver_station;
pub mod error;
pub mod nativeutils;
pub mod pwm;
pub mod resource_enum;
pub mod serial_port;
pub mod sim_device;
pub mod strutil;
pub mod threads;
pub mod usage_report;

use crate::error::{HALError, HALResult};

verus! {

/// Trait for a struct that wraps a raw handle value handed out by the
/// native layer. The handle is an opaque integer identifying a native-side
/// resource allocation.
pub trait Handle<T>: Sized {
    /// Fetches the raw handle.
    fn raw_handle(&self) -> T;

    /// Creates a new instance of the struct from a raw handle.
    /// Dropping both the new object and the original owner of the handle
    /// may free the native resource twice.
    fn from_raw_handle(handle: T) -> Self;
}

/// How initialization treats a HAL already running in another program.
#[derive(Debug, Copy, Clone, PartialEq, Eq, Structural)]
pub enum HALInitializationMode {
    /// Try to kill an existing HAL from another program, if not successful, error.
    TryKillExisting,
    /// Force kill a HAL from another program.
    ForceKillExisting,
    /// Just warn if another HAL exists and cannot be killed. Will likely result in undefined behavior.
    WarnIfExisting,
}

impl HALInitializationMode {
    /// The mode value the native layer uses.
    pub fn value(&self) -> (r: i32)
        ensures
            r == match *self {
                HALInitializationMode::TryKillExisting => 0i32,
                HALInitializationMode::ForceKillExisting => 1i32,
                HALInitializationMode::WarnIfExisting => 2i32,
            },
    {
        match self {
            HALInitializationMode::TryKillExisting => 0,
            HALInitializationMode::ForceKillExisting => 1,
            HALInitializationMode::WarnIfExisting => 2,
        }
    }
}

/// A span of time split into whole seconds and the microseconds left over,
/// as the FPGA clock reports it.
#[derive(Debug, Clone, Copy, PartialEq, Eq, Structural)]
pub struct Duration {
    pub secs: u64,
    pub micros: u32,
}

impl Duration {
    /// The leftover microseconds never reach a full second.
    pub open spec fn wf(&self) -> bool {
        self.micros < 1000000
    }

    /// Splits a count of microseconds into seconds and the remainder.
    pub fn from_micros(micros: u64) -> (r: Duration)
        ensures
            r.wf(),
            r.secs * 1000000 + r.micros == micros,
    {
        let d = Duration { secs: micros / 1000000, micros: (micros % 1000000) as u32 };
        proof {
            assert(d.secs * 1000000 + d.micros == micros) by (nonlinear_arith)
                requires
                    d.secs == micros / 1000000,
                    d.micros == micros % 1000000,
            ;
        }
        d
    }
}

/// Turns the FPGA timestamp query's result, a count of microseconds since
/// boot, into a duration; a failed query keeps its error.
pub fn get_fpga_duration(fpga_time: HALResult<u64>) -> (r: HALResult<Duration>)
    ensures
        match fpga_time {
            Ok(t) => r is Ok && r.unwrap().wf() && r.unwrap().secs * 1000000 + r.unwrap().micros
                == t,
            Err(e) => r == Err::<Duration, HALError>(e),
        },
{
    match fpga_time {
        Ok(t) => Ok(Duration::from_micros(t)),
        Err(e) => Err(e),
    }
}

} // verus!
