//! The layer's bookkeeping of OpenXR handles: which instance each session,
//! action set or space belongs to, and which stage spaces of the application
//! are redirected to the space that the server calibrated.
use crate::xr_wrap::XR_ERROR_HANDLE_INVALID;
use std::collections::{HashMap, HashSet};
use vstd::prelude::*;

verus! {

broadcast use vstd::std_specs::hash::group_hash_axioms;

/// For the handles of one kind, the instance that each belongs to.
#[derive(Debug)]
pub struct InstanceRefs {
    refs: HashMap<u64, u64>,
}

impl View for InstanceRefs {
    type V = Map<u64, u64>;

    closed spec fn view(&self) -> Map<u64, u64> {
        self.refs@
    }
}

/// What looking up `handle` gives: the instance it belongs to, if that
/// instance is still alive, else `XR_ERROR_HANDLE_INVALID`.
pub open spec fn resolved(refs: Map<u64, u64>, instances: Set<u64>, handle: u64) -> Result<
    u64,
    i32,
> {
    if refs.contains_key(handle) && instances.contains(refs[handle]) {
        Ok(refs[handle])
    } else {
        Err(XR_ERROR_HANDLE_INVALID)
    }
}

impl InstanceRefs {
    /// No handles.
    pub fn new() -> (r: InstanceRefs)
        ensures
            r@ == Map::<u64, u64>::empty(),
    {
        InstanceRefs { refs: HashMap::new() }
    }

    /// Records that `handle` belongs to `instance`.
    pub fn insert(&mut self, handle: u64, instance: u64)
        ensures
            final(self)@ == old(self)@.insert(handle, instance),
    {
        self.refs.insert(handle, instance);
    }

    /// The instance that `handle` belongs to, among the live `instances`.
    pub fn resolve(&self, instances: &HashSet<u64>, handle: u64) -> (r: Result<u64, i32>)
        ensures
            r == resolved(self@, instances@, handle),
    {
        match self.refs.get(&handle) {
            Some(instance) => {
                if instances.contains(instance) {
                    Ok(*instance)
                } else {
                    Err(XR_ERROR_HANDLE_INVALID)
                }
            },
            None => Err(XR_ERROR_HANDLE_INVALID),
        }
    }

    /// Forgets `handle` and gives the instance it belonged to, as
    /// [`InstanceRefs::resolve`] would have.
    pub fn release(&mut self, instances: &HashSet<u64>, handle: u64) -> (r: Result<u64, i32>)
        ensures
            final(self)@ == old(self)@.remove(handle),
            r == resolved(old(self)@, instances@, handle),
    {
        match self.refs.remove(&handle) {
            Some(instance) => {
                if instances.contains(&instance) {
                    Ok(instance)
                } else {
                    Err(XR_ERROR_HANDLE_INVALID)
                }
            },
            None => Err(XR_ERROR_HANDLE_INVALID),
        }
    }
}

/// A handle that was just recorded resolves to its instance while that
/// instance lives.
pub proof fn inserted_handle_resolves(
    refs: Map<u64, u64>,
    instances: Set<u64>,
    handle: u64,
    instance: u64,
)
    requires
        instances.contains(instance),
    ensures
        resolved(refs.insert(handle, instance), instances, handle) == Ok::<u64, i32>(instance),
{
}

/// A handle that was released no longer resolves, and the other handles
/// resolve as before.
pub proof fn released_handle_is_invalid(
    refs: Map<u64, u64>,
    instances: Set<u64>,
    handle: u64,
    other: u64,
)
    requires
        other != handle,
    ensures
        resolved(refs.remove(handle), instances, handle) == Err::<u64, i32>(XR_ERROR_HANDLE_INVALID),
        resolved(refs.remove(handle), instances, other) == resolved(refs, instances, other),
{
}

/// The space that the runtime is asked about in place of `space`: a stage
/// space of the application is replaced by the server's space, when that
/// can be read.
pub open spec fn rewritten_space(stage_spaces: Set<u64>, server_space: Option<u64>, space: u64) -> u64 {
    if stage_spaces.contains(space) && server_space is Some {
        server_space->0
    } else {
        space
    }
}

/// Replaces a stage space of the application by the server's space.
/// `server_space` is `None` when the server's space cannot be read; the
/// space is then left as it is.
pub fn rewrite_space(stage_spaces: &HashSet<u64>, server_space: Option<u64>, space: u64) -> (r: u64)
    ensures
        r == rewritten_space(stage_spaces@, server_space, space),
{
    if stage_spaces.contains(&space) {
        match server_space {
            Some(s) => s,
            None => space,
        }
    } else {
        space
    }
}

} // verus!
