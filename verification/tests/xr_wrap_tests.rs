use netvr::xr_wrap::{
    into_result, outcome_code, XrWrapError, XR_ERROR_HANDLE_INVALID, XR_ERROR_RUNTIME_FAILURE,
    XR_SUCCESS,
};

#[test]
fn success_code_is_ok() {
    assert!(into_result(XR_SUCCESS).is_ok());
    assert_eq!(outcome_code(&Ok(())), 0);
}

#[test]
fn error_codes_pass_through() {
    let r = into_result(XR_ERROR_HANDLE_INVALID);
    assert!(matches!(r, Err(XrWrapError::Expected(-12))));
    assert_eq!(outcome_code(&r), -12);
    assert_eq!(outcome_code(&into_result(3)), 3);
}

#[test]
fn internal_errors_are_runtime_failures() {
    let r: Result<(), XrWrapError> = Err(XrWrapError::Generic("lock poisoned".to_string()));
    assert_eq!(outcome_code(&r), XR_ERROR_RUNTIME_FAILURE);
    assert_eq!(outcome_code(&r), -2);
}
