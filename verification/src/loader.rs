//! Which OpenXR functions the layer loader replaces with its own.
use vstd::prelude::*;
use vstd::string::StringSliceAdditionalSpecFns;

verus! {

/// The functions that the loader can hand out in place of the runtime's.
#[derive(Clone, Copy, PartialEq, Eq, Structural, Debug)]
pub enum LoaderOverride {
    CreateInstance,
    DestroyInstance,
    PollEvent,
    CreateActionSet,
    StringToPath,
    SuggestInteractionProfileBindings,
    AttachSessionActionSets,
    SyncActions,
    GetActionStateBoolean,
    ApplyHapticFeedback,
    CreateSession,
    DestroySession,
}

/// What `xrGetInstanceProcAddr` answers for a function name.
#[derive(Clone, Copy, PartialEq, Eq, Structural, Debug)]
pub enum ProcAddrChoice {
    /// Hand out the loader's own function.
    Override(LoaderOverride),
    /// Forward to the runtime.
    Fallback,
    /// Forward to the runtime, warning that only `xr` functions are handled.
    NotXrFunction,
    /// Forward `xrDestroyInstance` to the runtime: the instance is to be
    /// destroyed by hand.
    ManualDestroy,
}

/// Whether the bytes of two strings are the same.
pub fn bytes_equal(a: &[u8], b: &[u8]) -> (r: bool)
    ensures
        r == (a@ == b@),
{
    if a.len() != b.len() {
        return false;
    }
    let mut i: usize = 0;
    while i < a.len()
        invariant
            i <= a@.len(),
            a@.len() == b@.len(),
            a@.take(i as int) == b@.take(i as int),
        decreases a@.len() - i,
    {
        if a[i] != b[i] {
            proof {
                assert(a@[i as int] != b@[i as int]);
            }
            return false;
        }
        proof {
            assert(a@.take(i + 1) =~= a@.take(i as int).push(a@[i as int]));
            assert(b@.take(i + 1) =~= b@.take(i as int).push(b@[i as int]));
        }
        i = i + 1;
    }
    proof {
        assert(a@.take(i as int) =~= a@);
        assert(b@.take(i as int) =~= b@);
    }
    true
}

/// The functions that are replaced for a known instance, by name.
pub open spec fn instance_override(name: Seq<u8>) -> Option<LoaderOverride> {
    if name == "xrPollEvent".spec_bytes() {
        Some(LoaderOverride::PollEvent)
    } else if name == "xrCreateActionSet".spec_bytes() {
        Some(LoaderOverride::CreateActionSet)
    } else if name == "xrStringToPath".spec_bytes() {
        Some(LoaderOverride::StringToPath)
    } else if name == "xrSuggestInteractionProfileBindings".spec_bytes() {
        Some(LoaderOverride::SuggestInteractionProfileBindings)
    } else if name == "xrAttachSessionActionSets".spec_bytes() {
        Some(LoaderOverride::AttachSessionActionSets)
    } else if name == "xrSyncActions".spec_bytes() {
        Some(LoaderOverride::SyncActions)
    } else if name == "xrGetActionStateBoolean".spec_bytes() {
        Some(LoaderOverride::GetActionStateBoolean)
    } else if name == "xrApplyHapticFeedback".spec_bytes() {
        Some(LoaderOverride::ApplyHapticFeedback)
    } else if name == "xrCreateSession".spec_bytes() {
        Some(LoaderOverride::CreateSession)
    } else if name == "xrDestroySession".spec_bytes() {
        Some(LoaderOverride::DestroySession)
    } else {
        None
    }
}

fn instance_override_exec(name: &[u8]) -> (r: Option<LoaderOverride>)
    ensures
        r == instance_override(name@),
{
    if bytes_equal(name, "xrPollEvent".as_bytes()) {
        Some(LoaderOverride::PollEvent)
    } else if bytes_equal(name, "xrCreateActionSet".as_bytes()) {
        Some(LoaderOverride::CreateActionSet)
    } else if bytes_equal(name, "xrStringToPath".as_bytes()) {
        Some(LoaderOverride::StringToPath)
    } else if bytes_equal(name, "xrSuggestInteractionProfileBindings".as_bytes()) {
        Some(LoaderOverride::SuggestInteractionProfileBindings)
    } else if bytes_equal(name, "xrAttachSessionActionSets".as_bytes()) {
        Some(LoaderOverride::AttachSessionActionSets)
    } else if bytes_equal(name, "xrSyncActions".as_bytes()) {
        Some(LoaderOverride::SyncActions)
    } else if bytes_equal(name, "xrGetActionStateBoolean".as_bytes()) {
        Some(LoaderOverride::GetActionStateBoolean)
    } else if bytes_equal(name, "xrApplyHapticFeedback".as_bytes()) {
        Some(LoaderOverride::ApplyHapticFeedback)
    } else if bytes_equal(name, "xrCreateSession".as_bytes()) {
        Some(LoaderOverride::CreateSession)
    } else if bytes_equal(name, "xrDestroySession".as_bytes()) {
        Some(LoaderOverride::DestroySession)
    } else {
        None
    }
}

/// Whether a name starts with `xr`.
pub open spec fn is_xr_name(name: Seq<u8>) -> bool {
    name.len() >= 2 && name[0] == 120u8 && name[1] == 114u8
}

/// What the loader answers for `name`:
/// - names not starting with `xr` go to the runtime, with a warning;
/// - without an instance only `xrCreateInstance` is replaced;
/// - for an instance the loader does not know, nothing is replaced;
/// - `xrDestroyInstance` is replaced only when destruction is automatic;
/// - otherwise the functions of [`instance_override`] are replaced.
pub open spec fn proc_addr_choice(
    name: Seq<u8>,
    instance_is_null: bool,
    instance_known: bool,
    automatic_destroy: bool,
) -> ProcAddrChoice {
    if !is_xr_name(name) {
        ProcAddrChoice::NotXrFunction
    } else if instance_is_null {
        if name == "xrCreateInstance".spec_bytes() {
            ProcAddrChoice::Override(LoaderOverride::CreateInstance)
        } else {
            ProcAddrChoice::Fallback
        }
    } else if !instance_known {
        ProcAddrChoice::Fallback
    } else if name == "xrDestroyInstance".spec_bytes() {
        if automatic_destroy {
            ProcAddrChoice::Override(LoaderOverride::DestroyInstance)
        } else {
            ProcAddrChoice::ManualDestroy
        }
    } else {
        match instance_override(name) {
            Some(o) => ProcAddrChoice::Override(o),
            None => ProcAddrChoice::Fallback,
        }
    }
}

/// The layer loader. It is never instantiated: it only groups the loader's
/// functions.
pub struct XrLayerLoader<Implementation> {
    _never_instantiated: Implementation,
}

impl<Implementation> XrLayerLoader<Implementation> {
    /// Decides what `xrGetInstanceProcAddr` answers for `name`.
    pub fn select_override(
        name: &str,
        instance_is_null: bool,
        instance_known: bool,
        automatic_destroy: bool,
    ) -> (r: ProcAddrChoice)
        ensures
            r == proc_addr_choice(name.spec_bytes(), instance_is_null, instance_known, automatic_destroy),
    {
        let bytes = name.as_bytes();
        if !(bytes.len() >= 2 && bytes[0] == 120u8 && bytes[1] == 114u8) {
            return ProcAddrChoice::NotXrFunction;
        }
        if instance_is_null {
            if bytes_equal(bytes, "xrCreateInstance".as_bytes()) {
                return ProcAddrChoice::Override(LoaderOverride::CreateInstance);
            }
            return ProcAddrChoice::Fallback;
        }
        if !instance_known {
            return ProcAddrChoice::Fallback;
        }
        if bytes_equal(bytes, "xrDestroyInstance".as_bytes()) {
            if automatic_destroy {
                return ProcAddrChoice::Override(LoaderOverride::DestroyInstance);
            }
            return ProcAddrChoice::ManualDestroy;
        }
        match instance_override_exec(bytes) {
            Some(o) => ProcAddrChoice::Override(o),
            None => ProcAddrChoice::Fallback,
        }
    }
}

} // verus!
