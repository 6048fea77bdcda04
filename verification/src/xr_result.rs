//! Human-readable names of OpenXR result codes, for log messages.
use vstd::prelude::*;
use vstd::string::StringExecFns;

verus! {

/// The text that openxr-sys prints (its `Display` for `Result`) for a
/// result code.
pub uninterp spec fn xr_result_description(code: i32) -> Seq<char>;

/// Calls `openxr_sys::Result::from_raw` and formats the result with its
/// `Display` impl. The contract claims only that the text is a function of
/// the code, named [`xr_result_description`]; what the text is (a sentence
/// per known code, "unknown error (code N)" otherwise) is not stated.
#[verifier::external_body]
fn describe_xr_result(code: i32) -> (s: String)
    ensures
        s@ == xr_result_description(code),
{
    openxr_sys::Result::from_raw(code).to_string()
}

/// The name (`XR_` and the constant's name) of the result codes that have
/// one.
pub open spec fn xr_result_name(code: i32) -> Option<Seq<char>> {
    if code == 0 {
        Some("XR_SUCCESS"@)
    } else if code == 1 {
        Some("XR_TIMEOUT_EXPIRED"@)
    } else if code == 3 {
        Some("XR_SESSION_LOSS_PENDING"@)
    } else if code == 4 {
        Some("XR_EVENT_UNAVAILABLE"@)
    } else if code == 7 {
        Some("XR_SPACE_BOUNDS_UNAVAILABLE"@)
    } else if code == 8 {
        Some("XR_SESSION_NOT_FOCUSED"@)
    } else if code == 9 {
        Some("XR_FRAME_DISCARDED"@)
    } else if code == -1 {
        Some("XR_ERROR_VALIDATION_FAILURE"@)
    } else if code == -2 {
        Some("XR_ERROR_RUNTIME_FAILURE"@)
    } else if code == -3 {
        Some("XR_ERROR_OUT_OF_MEMORY"@)
    } else if code == -4 {
        Some("XR_ERROR_API_VERSION_UNSUPPORTED"@)
    } else if code == -6 {
        Some("XR_ERROR_INITIALIZATION_FAILED"@)
    } else if code == -7 {
        Some("XR_ERROR_FUNCTION_UNSUPPORTED"@)
    } else if code == -8 {
        Some("XR_ERROR_FEATURE_UNSUPPORTED"@)
    } else if code == -9 {
        Some("XR_ERROR_EXTENSION_NOT_PRESENT"@)
    } else if code == -10 {
        Some("XR_ERROR_LIMIT_REACHED"@)
    } else if code == -11 {
        Some("XR_ERROR_SIZE_INSUFFICIENT"@)
    } else if code == -12 {
        Some("XR_ERROR_HANDLE_INVALID"@)
    } else if code == -13 {
        Some("XR_ERROR_INSTANCE_LOST"@)
    } else if code == -14 {
        Some("XR_ERROR_SESSION_RUNNING"@)
    } else if code == -16 {
        Some("XR_ERROR_SESSION_NOT_RUNNING"@)
    } else if code == -17 {
        Some("XR_ERROR_SESSION_LOST"@)
    } else if code == -18 {
        Some("XR_ERROR_SYSTEM_INVALID"@)
    } else if code == -19 {
        Some("XR_ERROR_PATH_INVALID"@)
    } else if code == -20 {
        Some("XR_ERROR_PATH_COUNT_EXCEEDED"@)
    } else if code == -21 {
        Some("XR_ERROR_PATH_FORMAT_INVALID"@)
    } else if code == -22 {
        Some("XR_ERROR_PATH_UNSUPPORTED"@)
    } else if code == -23 {
        Some("XR_ERROR_LAYER_INVALID"@)
    } else if code == -24 {
        Some("XR_ERROR_LAYER_LIMIT_EXCEEDED"@)
    } else if code == -25 {
        Some("XR_ERROR_SWAPCHAIN_RECT_INVALID"@)
    } else if code == -26 {
        Some("XR_ERROR_SWAPCHAIN_FORMAT_UNSUPPORTED"@)
    } else if code == -27 {
        Some("XR_ERROR_ACTION_TYPE_MISMATCH"@)
    } else if code == -28 {
        Some("XR_ERROR_SESSION_NOT_READY"@)
    } else if code == -29 {
        Some("XR_ERROR_SESSION_NOT_STOPPING"@)
    } else if code == -30 {
        Some("XR_ERROR_TIME_INVALID"@)
    } else if code == -31 {
        Some("XR_ERROR_REFERENCE_SPACE_UNSUPPORTED"@)
    } else if code == -32 {
        Some("XR_ERROR_FILE_ACCESS_ERROR"@)
    } else if code == -33 {
        Some("XR_ERROR_FILE_CONTENTS_INVALID"@)
    } else if code == -34 {
        Some("XR_ERROR_FORM_FACTOR_UNSUPPORTED"@)
    } else if code == -35 {
        Some("XR_ERROR_FORM_FACTOR_UNAVAILABLE"@)
    } else if code == -36 {
        Some("XR_ERROR_API_LAYER_NOT_PRESENT"@)
    } else if code == -37 {
        Some("XR_ERROR_CALL_ORDER_INVALID"@)
    } else if code == -38 {
        Some("XR_ERROR_GRAPHICS_DEVICE_INVALID"@)
    } else if code == -39 {
        Some("XR_ERROR_POSE_INVALID"@)
    } else if code == -40 {
        Some("XR_ERROR_INDEX_OUT_OF_RANGE"@)
    } else if code == -41 {
        Some("XR_ERROR_VIEW_CONFIGURATION_TYPE_UNSUPPORTED"@)
    } else if code == -42 {
        Some("XR_ERROR_ENVIRONMENT_BLEND_MODE_UNSUPPORTED"@)
    } else if code == -44 {
        Some("XR_ERROR_NAME_DUPLICATED"@)
    } else if code == -45 {
        Some("XR_ERROR_NAME_INVALID"@)
    } else if code == -46 {
        Some("XR_ERROR_ACTIONSET_NOT_ATTACHED"@)
    } else if code == -47 {
        Some("XR_ERROR_ACTIONSETS_ALREADY_ATTACHED"@)
    } else if code == -48 {
        Some("XR_ERROR_LOCALIZED_NAME_DUPLICATED"@)
    } else if code == -49 {
        Some("XR_ERROR_LOCALIZED_NAME_INVALID"@)
    } else if code == -50 {
        Some("XR_ERROR_GRAPHICS_REQUIREMENTS_CALL_MISSING"@)
    } else if code == -51 {
        Some("XR_ERROR_RUNTIME_UNAVAILABLE"@)
    } else if code == -1000003000 {
        Some("XR_ERROR_ANDROID_THREAD_SETTINGS_ID_INVALID_KHR"@)
    } else if code == -1000003001 {
        Some("XR_ERROR_ANDROID_THREAD_SETTINGS_FAILURE_KHR"@)
    } else if code == -1000039001 {
        Some("XR_ERROR_CREATE_SPATIAL_ANCHOR_FAILED_MSFT"@)
    } else if code == -1000053000 {
        Some("XR_ERROR_SECONDARY_VIEW_CONFIGURATION_TYPE_NOT_ENABLED_MSFT"@)
    } else if code == -1000055000 {
        Some("XR_ERROR_CONTROLLER_MODEL_KEY_INVALID_MSFT"@)
    } else if code == -1000066000 {
        Some("XR_ERROR_REPROJECTION_MODE_UNSUPPORTED_MSFT"@)
    } else if code == -1000097000 {
        Some("XR_ERROR_COMPUTE_NEW_SCENE_NOT_COMPLETED_MSFT"@)
    } else if code == -1000097001 {
        Some("XR_ERROR_SCENE_COMPONENT_ID_INVALID_MSFT"@)
    } else if code == -1000097002 {
        Some("XR_ERROR_SCENE_COMPONENT_TYPE_MISMATCH_MSFT"@)
    } else if code == -1000097003 {
        Some("XR_ERROR_SCENE_MESH_BUFFER_ID_INVALID_MSFT"@)
    } else if code == -1000097004 {
        Some("XR_ERROR_SCENE_COMPUTE_FEATURE_INCOMPATIBLE_MSFT"@)
    } else if code == -1000097005 {
        Some("XR_ERROR_SCENE_COMPUTE_CONSISTENCY_MISMATCH_MSFT"@)
    } else if code == -1000101000 {
        Some("XR_ERROR_DISPLAY_REFRESH_RATE_UNSUPPORTED_FB"@)
    } else if code == -1000108000 {
        Some("XR_ERROR_COLOR_SPACE_UNSUPPORTED_FB"@)
    } else if code == -1000118000 {
        Some("XR_ERROR_UNEXPECTED_STATE_PASSTHROUGH_FB"@)
    } else if code == -1000118001 {
        Some("XR_ERROR_FEATURE_ALREADY_CREATED_PASSTHROUGH_FB"@)
    } else if code == -1000118002 {
        Some("XR_ERROR_FEATURE_REQUIRED_PASSTHROUGH_FB"@)
    } else if code == -1000118003 {
        Some("XR_ERROR_NOT_PERMITTED_PASSTHROUGH_FB"@)
    } else if code == -1000118004 {
        Some("XR_ERROR_INSUFFICIENT_RESOURCES_PASSTHROUGH_FB"@)
    } else if code == -1000118050 {
        Some("XR_ERROR_UNKNOWN_PASSTHROUGH_FB"@)
    } else if code == -1000124000 {
        Some("XR_ERROR_MARKER_NOT_TRACKED_VARJO"@)
    } else if code == -1000124001 {
        Some("XR_ERROR_MARKER_ID_INVALID_VARJO"@)
    } else if code == -1000142001 {
        Some("XR_ERROR_SPATIAL_ANCHOR_NAME_NOT_FOUND_MSFT"@)
    } else if code == -1000142002 {
        Some("XR_ERROR_SPATIAL_ANCHOR_NAME_INVALID_MSFT"@)
    } else {
        None
    }
}

/// How a code without a name is shown: `XR_UNKNOWN_`, then `SUCCESS` for
/// negative codes and `FAILURE` for the others, then `_` and the
/// description of the code.
pub open spec fn unknown_xr_result(code: i32, description: Seq<char>) -> Seq<char> {
    "XR_UNKNOWN_"@ + (if code < 0 {
        "SUCCESS"@
    } else {
        "FAILURE"@
    }) + "_"@ + description
}

/// How a result code is shown in log messages.
pub open spec fn decoded_xr_result(code: i32) -> Seq<char> {
    match xr_result_name(code) {
        Some(name) => name,
        None => unknown_xr_result(code, xr_result_description(code)),
    }
}

/// Shows a code that has no name, given its description.
pub fn format_unknown_xr_result(code: i32, description: &str) -> (s: String)
    ensures
        s@ == unknown_xr_result(code, description@),
{
    let mut s = String::from_str("XR_UNKNOWN_");
    if code < 0 {
        s.append("SUCCESS");
    } else {
        s.append("FAILURE");
    }
    s.append("_");
    s.append(description);
    s
}

/// The name of an OpenXR result code, for log messages.
pub fn decode_xr_result(code: i32) -> (s: String)
    ensures
        s@ == decoded_xr_result(code),
{
    match code {
        0 => String::from_str("XR_SUCCESS"),
        1 => String::from_str("XR_TIMEOUT_EXPIRED"),
        3 => String::from_str("XR_SESSION_LOSS_PENDING"),
        4 => String::from_str("XR_EVENT_UNAVAILABLE"),
        7 => String::from_str("XR_SPACE_BOUNDS_UNAVAILABLE"),
        8 => String::from_str("XR_SESSION_NOT_FOCUSED"),
        9 => String::from_str("XR_FRAME_DISCARDED"),
        -1 => String::from_str("XR_ERROR_VALIDATION_FAILURE"),
        -2 => String::from_str("XR_ERROR_RUNTIME_FAILURE"),
        -3 => String::from_str("XR_ERROR_OUT_OF_MEMORY"),
        -4 => String::from_str("XR_ERROR_API_VERSION_UNSUPPORTED"),
        -6 => String::from_str("XR_ERROR_INITIALIZATION_FAILED"),
        -7 => String::from_str("XR_ERROR_FUNCTION_UNSUPPORTED"),
        -8 => String::from_str("XR_ERROR_FEATURE_UNSUPPORTED"),
        -9 => String::from_str("XR_ERROR_EXTENSION_NOT_PRESENT"),
        -10 => String::from_str("XR_ERROR_LIMIT_REACHED"),
        -11 => String::from_str("XR_ERROR_SIZE_INSUFFICIENT"),
        -12 => String::from_str("XR_ERROR_HANDLE_INVALID"),
        -13 => String::from_str("XR_ERROR_INSTANCE_LOST"),
        -14 => String::from_str("XR_ERROR_SESSION_RUNNING"),
        -16 => String::from_str("XR_ERROR_SESSION_NOT_RUNNING"),
        -17 => String::from_str("XR_ERROR_SESSION_LOST"),
        -18 => String::from_str("XR_ERROR_SYSTEM_INVALID"),
        -19 => String::from_str("XR_ERROR_PATH_INVALID"),
        -20 => String::from_str("XR_ERROR_PATH_COUNT_EXCEEDED"),
        -21 => String::from_str("XR_ERROR_PATH_FORMAT_INVALID"),
        -22 => String::from_str("XR_ERROR_PATH_UNSUPPORTED"),
        -23 => String::from_str("XR_ERROR_LAYER_INVALID"),
        -24 => String::from_str("XR_ERROR_LAYER_LIMIT_EXCEEDED"),
        -25 => String::from_str("XR_ERROR_SWAPCHAIN_RECT_INVALID"),
        -26 => String::from_str("XR_ERROR_SWAPCHAIN_FORMAT_UNSUPPORTED"),
        -27 => String::from_str("XR_ERROR_ACTION_TYPE_MISMATCH"),
        -28 => String::from_str("XR_ERROR_SESSION_NOT_READY"),
        -29 => String::from_str("XR_ERROR_SESSION_NOT_STOPPING"),
        -30 => String::from_str("XR_ERROR_TIME_INVALID"),
        -31 => String::from_str("XR_ERROR_REFERENCE_SPACE_UNSUPPORTED"),
        -32 => String::from_str("XR_ERROR_FILE_ACCESS_ERROR"),
        -33 => String::from_str("XR_ERROR_FILE_CONTENTS_INVALID"),
        -34 => String::from_str("XR_ERROR_FORM_FACTOR_UNSUPPORTED"),
        -35 => String::from_str("XR_ERROR_FORM_FACTOR_UNAVAILABLE"),
        -36 => String::from_str("XR_ERROR_API_LAYER_NOT_PRESENT"),
        -37 => String::from_str("XR_ERROR_CALL_ORDER_INVALID"),
        -38 => String::from_str("XR_ERROR_GRAPHICS_DEVICE_INVALID"),
        -39 => String::from_str("XR_ERROR_POSE_INVALID"),
        -40 => String::from_str("XR_ERROR_INDEX_OUT_OF_RANGE"),
        -41 => String::from_str("XR_ERROR_VIEW_CONFIGURATION_TYPE_UNSUPPORTED"),
        -42 => String::from_str("XR_ERROR_ENVIRONMENT_BLEND_MODE_UNSUPPORTED"),
        -44 => String::from_str("XR_ERROR_NAME_DUPLICATED"),
        -45 => String::from_str("XR_ERROR_NAME_INVALID"),
        -46 => String::from_str("XR_ERROR_ACTIONSET_NOT_ATTACHED"),
        -47 => String::from_str("XR_ERROR_ACTIONSETS_ALREADY_ATTACHED"),
        -48 => String::from_str("XR_ERROR_LOCALIZED_NAME_DUPLICATED"),
        -49 => String::from_str("XR_ERROR_LOCALIZED_NAME_INVALID"),
        -50 => String::from_str("XR_ERROR_GRAPHICS_REQUIREMENTS_CALL_MISSING"),
        -51 => String::from_str("XR_ERROR_RUNTIME_UNAVAILABLE"),
        -1000003000 => String::from_str("XR_ERROR_ANDROID_THREAD_SETTINGS_ID_INVALID_KHR"),
        -1000003001 => String::from_str("XR_ERROR_ANDROID_THREAD_SETTINGS_FAILURE_KHR"),
        -1000039001 => String::from_str("XR_ERROR_CREATE_SPATIAL_ANCHOR_FAILED_MSFT"),
        -1000053000 => String::from_str("XR_ERROR_SECONDARY_VIEW_CONFIGURATION_TYPE_NOT_ENABLED_MSFT"),
        -1000055000 => String::from_str("XR_ERROR_CONTROLLER_MODEL_KEY_INVALID_MSFT"),
        -1000066000 => String::from_str("XR_ERROR_REPROJECTION_MODE_UNSUPPORTED_MSFT"),
        -1000097000 => String::from_str("XR_ERROR_COMPUTE_NEW_SCENE_NOT_COMPLETED_MSFT"),
        -1000097001 => String::from_str("XR_ERROR_SCENE_COMPONENT_ID_INVALID_MSFT"),
        -1000097002 => String::from_str("XR_ERROR_SCENE_COMPONENT_TYPE_MISMATCH_MSFT"),
        -1000097003 => String::from_str("XR_ERROR_SCENE_MESH_BUFFER_ID_INVALID_MSFT"),
        -1000097004 => String::from_str("XR_ERROR_SCENE_COMPUTE_FEATURE_INCOMPATIBLE_MSFT"),
        -1000097005 => String::from_str("XR_ERROR_SCENE_COMPUTE_CONSISTENCY_MISMATCH_MSFT"),
        -1000101000 => String::from_str("XR_ERROR_DISPLAY_REFRESH_RATE_UNSUPPORTED_FB"),
        -1000108000 => String::from_str("XR_ERROR_COLOR_SPACE_UNSUPPORTED_FB"),
        -1000118000 => String::from_str("XR_ERROR_UNEXPECTED_STATE_PASSTHROUGH_FB"),
        -1000118001 => String::from_str("XR_ERROR_FEATURE_ALREADY_CREATED_PASSTHROUGH_FB"),
        -1000118002 => String::from_str("XR_ERROR_FEATURE_REQUIRED_PASSTHROUGH_FB"),
        -1000118003 => String::from_str("XR_ERROR_NOT_PERMITTED_PASSTHROUGH_FB"),
        -1000118004 => String::from_str("XR_ERROR_INSUFFICIENT_RESOURCES_PASSTHROUGH_FB"),
        -1000118050 => String::from_str("XR_ERROR_UNKNOWN_PASSTHROUGH_FB"),
        -1000124000 => String::from_str("XR_ERROR_MARKER_NOT_TRACKED_VARJO"),
        -1000124001 => String::from_str("XR_ERROR_MARKER_ID_INVALID_VARJO"),
        -1000142001 => String::from_str("XR_ERROR_SPATIAL_ANCHOR_NAME_NOT_FOUND_MSFT"),
        -1000142002 => String::from_str("XR_ERROR_SPATIAL_ANCHOR_NAME_INVALID_MSFT"),
        _ => {
            let description = describe_xr_result(code);
            format_unknown_xr_result(code, description.as_str())
        },
    }
}

} // verus!
