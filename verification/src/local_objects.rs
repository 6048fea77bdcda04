//! The client side of the shared scene objects: the poses received from the
//! server, overlaid with the poses of the objects that this client holds.
use crate::app::Snapshot;
use crate::maps::usize_keys_of;
use crate::model::{Nothing, Pose};
use std::collections::{HashMap, HashSet};
use vstd::prelude::*;

verus! {

broadcast use vstd::std_specs::hash::group_hash_axioms;

/// Why an object request was refused.
#[derive(Clone, Copy, PartialEq, Eq, Structural, Debug)]
pub enum ObjectError {
    /// The object does not exist.
    ObjectNotFound,
}

/// The objects as this client sees them.
#[derive(Debug)]
pub struct LocalObjects {
    /// Poses of all objects as last received.
    pub remote_app_state: Snapshot,
    /// Poses of the objects this client holds, by object index.
    pub local_app_overrides: HashMap<usize, Pose>,
    /// Objects this client has grabbed at some point.
    pub grabbed: HashSet<u32>,
}

/// Mathematical model of [`LocalObjects`].
pub struct LocalObjectsView {
    pub remote: Seq<Pose>,
    pub overrides: Map<usize, Pose>,
    pub grabbed: Set<u32>,
}

impl View for LocalObjects {
    type V = LocalObjectsView;

    open spec fn view(&self) -> LocalObjectsView {
        LocalObjectsView {
            remote: self.remote_app_state.objects@,
            overrides: self.local_app_overrides@,
            grabbed: self.grabbed@,
        }
    }
}

/// Every held object exists.
pub open spec fn objects_wf(s: LocalObjectsView) -> bool {
    forall|i: usize| #[trigger] s.overrides.contains_key(i) ==> (i as int) < s.remote.len()
}

/// The objects as the application sees them: held objects at their local
/// pose, every other object at its received pose.
pub open spec fn visible_objects(s: LocalObjectsView) -> Seq<Pose> {
    Seq::new(
        s.remote.len(),
        |i: int|
            if s.overrides.contains_key(i as usize) {
                s.overrides[i as usize]
            } else {
                s.remote[i]
            },
    )
}

impl LocalObjects {
    /// No objects, nothing held.
    pub fn new() -> (r: LocalObjects)
        ensures
            r@.remote == Seq::<Pose>::empty(),
            r@.overrides == Map::<usize, Pose>::empty(),
            r@.grabbed == Set::<u32>::empty(),
            objects_wf(r@),
    {
        LocalObjects {
            remote_app_state: Snapshot::default(),
            local_app_overrides: HashMap::new(),
            grabbed: HashSet::new(),
        }
    }

    /// The objects as the application sees them.
    pub fn read_remote_objects(&self) -> (r: Snapshot)
        requires
            objects_wf(self@),
        ensures
            r.objects@ == visible_objects(self@),
    {
        let mut objects = self.remote_app_state.clone();
        let ids = usize_keys_of(&self.local_app_overrides);
        let mut k: usize = 0;
        while k < ids.len()
            invariant
                k <= ids.len(),
                objects_wf(self@),
                ids@.to_set() == self@.overrides.dom(),
                ids@.no_duplicates(),
                objects.objects@.len() == self@.remote.len(),
                forall|i: int|
                    0 <= i < self@.remote.len() ==> #[trigger] objects.objects@[i] == if ids@.take(
                        k as int,
                    ).contains(i as usize) {
                        self@.overrides[i as usize]
                    } else {
                        self@.remote[i]
                    },
            decreases ids.len() - k,
        {
            let id = ids[k];
            proof {
                assert(ids@.to_set().contains(id));
            }
            let pose = *self.local_app_overrides.get(&id).unwrap();
            objects.objects.set(id, pose);
            proof {
                broadcast use vstd::seq_lib::group_seq_properties;

                assert(ids@.take(k + 1) =~= ids@.take(k as int).push(id));
                assert forall|i: int| 0 <= i < self@.remote.len() implies #[trigger] objects.objects@[i]
                    == if ids@.take(k + 1).contains(i as usize) {
                    self@.overrides[i as usize]
                } else {
                    self@.remote[i]
                } by {
                    assert((i as usize) as int == i);
                    if i != id as int {
                        assert(ids@.take(k + 1).contains(i as usize) <==> ids@.take(k as int).contains(
                            i as usize,
                        ));
                    }
                }
            }
            k = k + 1;
        }
        proof {
            assert(ids@.take(ids@.len() as int) =~= ids@);
            assert forall|i: int| 0 <= i < self@.remote.len() implies (#[trigger] ids@.contains(i as usize)
                <==> self@.overrides.contains_key(i as usize)) by {
                if ids@.contains(i as usize) {
                    assert(ids@.to_set().contains(i as usize));
                }
                if self@.overrides.contains_key(i as usize) {
                    assert(ids@.to_set().contains(i as usize));
                }
            }
            assert(objects.objects@ =~= visible_objects(self@));
        }
        objects
    }

    /// Takes the first snapshot of objects; later ones are ignored.
    pub fn init_remote_objects(&mut self, snapshot: Snapshot) -> (r: Nothing)
        requires
            objects_wf(old(self)@),
        ensures
            objects_wf(final(self)@),
            final(self)@.overrides == old(self)@.overrides,
            final(self)@.grabbed == old(self)@.grabbed,
            final(self)@.remote == if old(self)@.remote.len() == 0 {
                snapshot.objects@
            } else {
                old(self)@.remote
            },
    {
        if self.remote_app_state.objects.len() == 0 {
            self.remote_app_state = snapshot;
        }
        proof {
            assert forall|i: usize| #[trigger] self@.overrides.contains_key(i) implies (i as int)
                < self@.remote.len() by {
                assert(old(self)@.overrides.contains_key(i));
            }
        }
        Nothing::default()
    }

    /// Starts holding object `object_id` at its received pose.
    pub fn grab(&mut self, object_id: u32) -> (r: Result<Nothing, ObjectError>)
        requires
            objects_wf(old(self)@),
        ensures
            objects_wf(final(self)@),
            final(self)@.remote == old(self)@.remote,
            (object_id as int) < old(self)@.remote.len() ==> {
                &&& r is Ok
                &&& final(self)@.grabbed == old(self)@.grabbed.insert(object_id)
                &&& final(self)@.overrides == old(self)@.overrides.insert(
                    object_id as usize,
                    old(self)@.remote[object_id as int],
                )
            },
            (object_id as int) >= old(self)@.remote.len() ==> {
                &&& r == Err::<Nothing, ObjectError>(ObjectError::ObjectNotFound)
                &&& final(self)@ == old(self)@
            },
    {
        let index = object_id as usize;
        if index >= self.remote_app_state.objects.len() {
            return Err(ObjectError::ObjectNotFound);
        }
        let pose = self.remote_app_state.objects[index];
        self.grabbed.insert(object_id);
        self.local_app_overrides.insert(index, pose);
        proof {
            assert forall|i: usize| #[trigger] self@.overrides.contains_key(i) implies (i as int)
                < self@.remote.len() by {
                if i != index {
                    assert(old(self)@.overrides.contains_key(i));
                }
            }
        }
        Ok(Nothing::default())
    }

    /// Stops holding object `object_id`.
    pub fn release(&mut self, object_id: u32) -> (r: Nothing)
        requires
            objects_wf(old(self)@),
        ensures
            objects_wf(final(self)@),
            final(self)@.remote == old(self)@.remote,
            final(self)@.grabbed == old(self)@.grabbed,
            final(self)@.overrides == old(self)@.overrides.remove(object_id as usize),
    {
        self.local_app_overrides.remove(&(object_id as usize));
        proof {
            assert forall|i: usize| #[trigger] self@.overrides.contains_key(i) implies (i as int)
                < self@.remote.len() by {
                assert(old(self)@.overrides.contains_key(i));
            }
        }
        Nothing::default()
    }

    /// Moves object `object_id`, if this client holds it.
    pub fn object_set_pose(&mut self, object_id: u32, pose: Pose) -> (r: Nothing)
        requires
            objects_wf(old(self)@),
        ensures
            objects_wf(final(self)@),
            final(self)@.remote == old(self)@.remote,
            final(self)@.grabbed == old(self)@.grabbed,
            final(self)@.overrides == if old(self)@.overrides.contains_key(object_id as usize) {
                old(self)@.overrides.insert(object_id as usize, pose)
            } else {
                old(self)@.overrides
            },
    {
        let index = object_id as usize;
        if self.local_app_overrides.contains_key(&index) {
            self.local_app_overrides.insert(index, pose);
        }
        proof {
            assert forall|i: usize| #[trigger] self@.overrides.contains_key(i) implies (i as int)
                < self@.remote.len() by {
                assert(old(self)@.overrides.contains_key(i));
            }
        }
        Nothing::default()
    }
}

/// What a read shows after a grab, a move and a release of one object:
/// the held pose while it is held, the received pose once released.
pub proof fn held_object_is_seen_until_release(s: LocalObjectsView, object: u32, pose: Pose)
    requires
        objects_wf(s),
        (object as int) < s.remote.len(),
    ensures
        ({
            let grabbed = LocalObjectsView {
                remote: s.remote,
                overrides: s.overrides.insert(object as usize, s.remote[object as int]),
                grabbed: s.grabbed.insert(object),
            };
            let moved = LocalObjectsView {
                remote: s.remote,
                overrides: grabbed.overrides.insert(object as usize, pose),
                grabbed: grabbed.grabbed,
            };
            let released = LocalObjectsView {
                remote: s.remote,
                overrides: moved.overrides.remove(object as usize),
                grabbed: moved.grabbed,
            };
            &&& visible_objects(grabbed)[object as int] == s.remote[object as int]
            &&& visible_objects(moved)[object as int] == pose
            &&& visible_objects(released)[object as int] == s.remote[object as int]
        }),
{
}

/// Moving an object that is not held changes nothing the application sees.
pub proof fn unheld_object_does_not_move(s: LocalObjectsView, object: u32, pose: Pose)
    requires
        !s.overrides.contains_key(object as usize),
    ensures
        visible_objects(
            LocalObjectsView {
                remote: s.remote,
                overrides: if s.overrides.contains_key(object as usize) {
                    s.overrides.insert(object as usize, pose)
                } else {
                    s.overrides
                },
                grabbed: s.grabbed,
            },
        ) == visible_objects(s),
{
}

} // verus!
