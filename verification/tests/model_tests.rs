use netvr::app::Snapshot;
use netvr::model::{
    Nothing, OnlyString, Pose, Quaternion, RemoteConfigurationSnapshot, StateSnapshot, Vec3,
    ONE_BITS,
};

#[test]
fn defaults() {
    assert_eq!(ONE_BITS, 1.0f32.to_bits());
    assert_eq!(Vec3::default(), Vec3 { x: 0, y: 0, z: 0 });
    assert_eq!(Quaternion::default(), Quaternion { x: 0, y: 0, z: 0, w: ONE_BITS });
    let p = Pose::default();
    assert_eq!(p.position, Vec3::default());
    let s = StateSnapshot::default();
    assert!(s.controllers.is_empty());
    assert_eq!(s.required_configuration, 0);
    let c = RemoteConfigurationSnapshot::default();
    assert_eq!(c.version, 0);
    assert_eq!(c.name, "");
    assert_eq!(Nothing::default().raw(), 0);
    assert_eq!(Nothing::from_raw(7).raw(), 7);
    assert!(Snapshot::default().objects.is_empty());
    assert_eq!(OnlyString("x".to_string()).0, "x");
}

#[test]
fn clones_keep_contents() {
    let c = RemoteConfigurationSnapshot {
        version: 2,
        user_paths: vec!["/user/head".to_string()],
        interaction_profiles: vec![],
        name: "n".to_string(),
    };
    let d = c.clone();
    assert_eq!(d.version, 2);
    assert_eq!(d.user_paths, c.user_paths);
    assert_eq!(d.name, "n");
    let s = Snapshot { objects: vec![Pose::default()] };
    assert_eq!(s.clone().objects, s.objects);
}
