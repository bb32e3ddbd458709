//! Error handling for the native HAL's status-code convention.
//!
//! Every native call reports failure through an `i32` out-parameter: zero
//! means success, anything else is an error code. This module carries that
//! convention into structured `Result` values.

use vstd::prelude::*;

verus! {

/// A non-zero status code returned from a native HAL call.
#[derive(Clone, Copy, Debug, PartialEq, Eq, Structural)]
pub struct HALError(pub i32);

pub type HALResult<T> = Result<T, HALError>;

impl From<i32> for HALError {
    fn from(code: i32) -> (r: Self) {
        HALError(code)
    }
}

impl vstd::std_specs::convert::FromSpecImpl<i32> for HALError {
    open spec fn obeys_from_spec() -> bool {
        true
    }

    open spec fn from_spec(code: i32) -> Self {
        HALError(code)
    }
}

/// Translates a native out-parameter status code and a call's return value
/// into a structured result: a zero status yields the value, a non-zero
/// status yields an error carrying that code.
pub fn hal_result<T>(status: i32, value: T) -> (r: HALResult<T>)
    ensures
        status == 0 ==> r == Ok::<T, HALError>(value),
        status != 0 ==> r == Err::<T, HALError>(HALError(status)),
{
    if status == 0 {
        Ok(value)
    } else {
        Err(HALError(status))
    }
}

} // verus!
