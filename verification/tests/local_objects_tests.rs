use netvr::app::Snapshot;
use netvr::local_objects::{LocalObjects, ObjectError};
use netvr::model::{Pose, Quaternion, Vec3};

fn pose(x: f32) -> Pose {
    Pose {
        position: Vec3 { x: x.to_bits(), y: 0, z: 0 },
        orientation: Quaternion::default(),
    }
}

fn with_objects(n: usize) -> LocalObjects {
    let mut s = LocalObjects::new();
    s.init_remote_objects(Snapshot { objects: (0..n).map(|i| pose(i as f32)).collect() });
    s
}

#[test]
fn init_only_once() {
    let mut s = with_objects(2);
    s.init_remote_objects(Snapshot { objects: vec![pose(9.0)] });
    assert_eq!(s.read_remote_objects().objects, vec![pose(0.0), pose(1.0)]);
}

#[test]
fn grab_unknown_object_fails() {
    let mut s = with_objects(1);
    assert_eq!(s.grab(1).unwrap_err(), ObjectError::ObjectNotFound);
    assert!(s.grabbed.is_empty());
}

#[test]
fn held_object_shows_local_pose_until_release() {
    let mut s = with_objects(2);
    assert!(s.grab(1).is_ok());
    assert!(s.grabbed.contains(&1));
    assert_eq!(s.read_remote_objects().objects, vec![pose(0.0), pose(1.0)]);
    s.object_set_pose(1, pose(5.0));
    assert_eq!(s.read_remote_objects().objects, vec![pose(0.0), pose(5.0)]);
    s.release(1);
    assert_eq!(s.read_remote_objects().objects, vec![pose(0.0), pose(1.0)]);
}

#[test]
fn moving_unheld_object_changes_nothing() {
    let mut s = with_objects(2);
    s.object_set_pose(0, pose(5.0));
    assert_eq!(s.read_remote_objects().objects, vec![pose(0.0), pose(1.0)]);
    assert!(s.local_app_overrides.is_empty());
}

#[test]
fn nothing_carries_zero() {
    let mut s = with_objects(1);
    assert_eq!(s.release(0).raw(), 0);
}
