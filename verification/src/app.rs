//! Messages about the objects that clients share in the scene.
use crate::model::Pose;
use vstd::prelude::*;

verus! {

/// List of all poses of all objects in the scene.
#[derive(Debug)]
pub struct Snapshot {
    pub objects: Vec<Pose>,
}

impl Default for Snapshot {
    fn default() -> (r: Self)
        ensures
            r.objects@ == Seq::<Pose>::empty(),
    {
        Snapshot { objects: Vec::new() }
    }
}

impl Clone for Snapshot {
    fn clone(&self) -> (r: Self)
        ensures
            r.objects@ == self.objects@,
    {
        let objects = self.objects.clone();
        proof {
            assert(objects@ =~= self.objects@);
        }
        Snapshot { objects }
    }
}

/// Messages that a client sends to the server about the synchronized objects.
#[derive(Debug)]
pub enum AppUp {
    Init(Snapshot),
    Grab(u32),
}

/// Messages that the server sends to a client about the synchronized objects.
#[derive(Clone, Copy, PartialEq, Eq, Structural, Debug)]
pub enum AppDown {
    Release(u32),
}

/// Datagrams that a client sends to the server about the synchronized objects.
#[derive(Clone, Copy, PartialEq, Eq, Structural, Debug)]
pub enum AppDatagramUp {
    SetPose(usize, Pose),
}

} // verus!
