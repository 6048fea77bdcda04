//! How the layer's functions turn their outcome into an OpenXR result code.
use vstd::prelude::*;

verus! {

/// `XR_SUCCESS`
pub const XR_SUCCESS: i32 = 0i32;

/// `XR_ERROR_RUNTIME_FAILURE`
pub const XR_ERROR_RUNTIME_FAILURE: i32 = -2i32;

/// `XR_ERROR_HANDLE_INVALID`
pub const XR_ERROR_HANDLE_INVALID: i32 = -12i32;

/// `XR_ERROR_SIZE_INSUFFICIENT`
pub const XR_ERROR_SIZE_INSUFFICIENT: i32 = -11i32;

/// An error of a layer function.
#[derive(Debug)]
pub enum XrWrapError {
    /// An error that is expected to happen, or is outside the layer's
    /// control, with its OpenXR result code.
    Expected(i32),
    /// An internal error of the layer, with its message.
    Generic(String),
}

/// The code a layer function returns for its outcome: success, the code
/// of an expected error, or a runtime failure for an internal error.
pub open spec fn spec_outcome_code(r: Result<(), XrWrapError>) -> i32 {
    match r {
        Ok(()) => XR_SUCCESS,
        Err(XrWrapError::Expected(code)) => code,
        Err(XrWrapError::Generic(_)) => XR_ERROR_RUNTIME_FAILURE,
    }
}

/// The code a layer function returns for its outcome. A function that
/// panicked returns `XR_ERROR_RUNTIME_FAILURE` as well.
pub fn outcome_code(r: &Result<(), XrWrapError>) -> (code: i32)
    ensures
        code == spec_outcome_code(*r),
{
    match r {
        Ok(()) => XR_SUCCESS,
        Err(XrWrapError::Expected(code)) => *code,
        Err(XrWrapError::Generic(_)) => XR_ERROR_RUNTIME_FAILURE,
    }
}

/// The outcome that a result code of the runtime stands for: success, or
/// an expected error carrying the code.
pub open spec fn spec_into_result(code: i32) -> Result<(), XrWrapError> {
    if code == XR_SUCCESS {
        Ok(())
    } else {
        Err(XrWrapError::Expected(code))
    }
}

/// Turns a result code of the runtime into an outcome.
pub fn into_result(code: i32) -> (r: Result<(), XrWrapError>)
    ensures
        r == spec_into_result(code),
{
    if code == XR_SUCCESS {
        Ok(())
    } else {
        Err(XrWrapError::Expected(code))
    }
}

/// A result code of the runtime passes through the layer unchanged.
pub proof fn runtime_codes_pass_through(code: i32)
    ensures
        spec_outcome_code(spec_into_result(code)) == code,
{
}

} // verus!
