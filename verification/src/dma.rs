//! DMA sample-capture support types.

use vstd::prelude::*;
use crate::error::HALError;

verus! {

/// Error from a DMA read: the capture timed out, the FPGA reported a read
/// fault, or the underlying native call itself failed.
#[derive(Debug, Clone, Copy, PartialEq, Eq, Structural)]
pub enum DMAError {
    DMATimeout,
    DMAError,
    HALError(HALError),
}

/// Outcome code a completed native DMA read reports alongside its sample.
#[derive(Debug, Clone, Copy, PartialEq, Eq, Structural)]
pub enum DMAReadStatus {
    Success,
    Timeout,
    Failure,
}

impl DMAError {
    /// A short description of the error.
    pub fn message(&self) -> (r: String)
        ensures
            *self is DMATimeout ==> r@ == "DMAError::DMATimeout"@,
            *self is DMAError ==> r@ == "DMAError::DMAError"@,
            *self is HALError ==> r@ == "DMAError::HALError"@,
    {
        match self {
            DMAError::DMATimeout => "DMAError::DMATimeout".to_owned(),
            DMAError::DMAError => "DMAError::DMAError".to_owned(),
            DMAError::HALError(_) => "DMAError::HALError".to_owned(),
        }
    }
}

impl From<HALError> for DMAError {
    fn from(value: HALError) -> (r: Self) {
        DMAError::HALError(value)
    }
}

impl vstd::std_specs::convert::FromSpecImpl<HALError> for DMAError {
    open spec fn obeys_from_spec() -> bool {
        true
    }

    open spec fn from_spec(value: HALError) -> Self {
        DMAError::HALError(value)
    }
}

/// Turns the outcome of a completed native DMA read into a result: a
/// successful read yields the count of samples still queued, a timeout or
/// read fault yields the matching error.
pub fn dma_read_result(status: DMAReadStatus, remaining: i32) -> (r: Result<i32, DMAError>)
    ensures
        status is Success ==> r == Ok::<i32, DMAError>(remaining),
        status is Timeout ==> r == Err::<i32, DMAError>(DMAError::DMATimeout),
        status is Failure ==> r == Err::<i32, DMAError>(DMAError::DMAError),
{
    match status {
        DMAReadStatus::Success => Ok(remaining),
        DMAReadStatus::Timeout => Err(DMAError::DMATimeout),
        DMAReadStatus::Failure => Err(DMAError::DMAError),
    }
}

} // verus!
