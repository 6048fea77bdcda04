use netvr::loader::{bytes_equal, LoaderOverride, ProcAddrChoice, XrLayerLoader};

type Loader = XrLayerLoader<()>;

#[test]
fn names_without_xr_prefix_go_to_runtime() {
    assert_eq!(Loader::select_override("PollEvent", false, true, true), ProcAddrChoice::NotXrFunction);
    assert_eq!(Loader::select_override("x", true, false, true), ProcAddrChoice::NotXrFunction);
    assert_eq!(Loader::select_override("", true, false, true), ProcAddrChoice::NotXrFunction);
}

#[test]
fn null_instance_only_creates() {
    assert_eq!(
        Loader::select_override("xrCreateInstance", true, false, true),
        ProcAddrChoice::Override(LoaderOverride::CreateInstance)
    );
    assert_eq!(
        Loader::select_override("xrEnumerateApiLayerProperties", true, false, true),
        ProcAddrChoice::Fallback
    );
    assert_eq!(Loader::select_override("xrPollEvent", true, true, true), ProcAddrChoice::Fallback);
}

#[test]
fn unknown_instance_gets_runtime_functions() {
    assert_eq!(Loader::select_override("xrPollEvent", false, false, true), ProcAddrChoice::Fallback);
}

#[test]
fn destroy_instance_depends_on_automatic_destroy() {
    assert_eq!(
        Loader::select_override("xrDestroyInstance", false, true, true),
        ProcAddrChoice::Override(LoaderOverride::DestroyInstance)
    );
    assert_eq!(
        Loader::select_override("xrDestroyInstance", false, true, false),
        ProcAddrChoice::ManualDestroy
    );
}

#[test]
fn instance_functions_are_overridden() {
    let cases = [
        ("xrPollEvent", LoaderOverride::PollEvent),
        ("xrCreateActionSet", LoaderOverride::CreateActionSet),
        ("xrStringToPath", LoaderOverride::StringToPath),
        ("xrSuggestInteractionProfileBindings", LoaderOverride::SuggestInteractionProfileBindings),
        ("xrAttachSessionActionSets", LoaderOverride::AttachSessionActionSets),
        ("xrSyncActions", LoaderOverride::SyncActions),
        ("xrGetActionStateBoolean", LoaderOverride::GetActionStateBoolean),
        ("xrApplyHapticFeedback", LoaderOverride::ApplyHapticFeedback),
        ("xrCreateSession", LoaderOverride::CreateSession),
        ("xrDestroySession", LoaderOverride::DestroySession),
    ];
    for (name, o) in cases {
        assert_eq!(Loader::select_override(name, false, true, true), ProcAddrChoice::Override(o));
    }
    assert_eq!(Loader::select_override("xrCreateAction", false, true, true), ProcAddrChoice::Fallback);
    assert_eq!(Loader::select_override("xrCreateInstance", false, true, true), ProcAddrChoice::Fallback);
    assert_eq!(Loader::select_override("xrPollEventX", false, true, true), ProcAddrChoice::Fallback);
}

#[test]
fn byte_equality() {
    assert!(bytes_equal(b"abc", b"abc"));
    assert!(!bytes_equal(b"abc", b"abd"));
    assert!(!bytes_equal(b"abc", b"ab"));
    assert!(bytes_equal(b"", b""));
}
