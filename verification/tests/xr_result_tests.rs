use netvr::xr_result::{decode_xr_result, format_unknown_xr_result};

#[test]
fn known_codes_have_names() {
    assert_eq!(decode_xr_result(0), "XR_SUCCESS");
    assert_eq!(decode_xr_result(1), "XR_TIMEOUT_EXPIRED");
    assert_eq!(decode_xr_result(-2), "XR_ERROR_RUNTIME_FAILURE");
    assert_eq!(decode_xr_result(-12), "XR_ERROR_HANDLE_INVALID");
    assert_eq!(
        decode_xr_result(-1000142002),
        "XR_ERROR_SPATIAL_ANCHOR_NAME_INVALID_MSFT"
    );
}

#[test]
fn unknown_codes_use_the_runtime_description() {
    assert_eq!(
        decode_xr_result(12345),
        "XR_UNKNOWN_FAILURE_unknown error (code 12345)"
    );
    assert_eq!(decode_xr_result(-7777), "XR_UNKNOWN_SUCCESS_unknown error (code -7777)");
    // a code that openxr-sys knows but this table does not
    assert_eq!(decode_xr_result(-1000113000), "XR_UNKNOWN_SUCCESS_the component type is not supported for this space");
}

#[test]
fn unknown_format() {
    assert_eq!(format_unknown_xr_result(5, "x"), "XR_UNKNOWN_FAILURE_x");
    assert_eq!(format_unknown_xr_result(-5, ""), "XR_UNKNOWN_SUCCESS_");
}
