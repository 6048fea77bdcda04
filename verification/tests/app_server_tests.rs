use netvr::app::{AppDatagramUp, AppDown, AppUp, Snapshot};
use netvr::app_server::{
    broadcast_datagram, flatten_message, AppAction, AppObject, AppServerMessage, AppServerState,
    UpMessage,
};
use netvr::model::{DatagramDown, Pose, Quaternion, Vec3};

fn pose(x: f32) -> Pose {
    Pose {
        position: Vec3 { x: x.to_bits(), y: 0, z: 0 },
        orientation: Quaternion::default(),
    }
}

fn started(n: usize) -> AppServerState {
    let mut s = AppServerState::new();
    let objects = (0..n).map(|i| pose(i as f32)).collect();
    s.handle(UpMessage::Init(Snapshot { objects }));
    s
}

#[test]
fn init_sets_unowned_objects() {
    let s = started(2);
    assert_eq!(s.initial_state.len(), 2);
    assert_eq!(s.state, s.initial_state);
    assert_eq!(s.state[1], AppObject { owner: 0, pose: pose(1.0) });
}

#[test]
fn second_init_is_ignored() {
    let mut s = started(2);
    s.handle(UpMessage::Init(Snapshot { objects: vec![pose(9.0)] }));
    assert_eq!(s.initial_state.len(), 2);
    assert_eq!(s.state.len(), 2);
}

#[test]
fn empty_init_allows_a_later_one() {
    let mut s = AppServerState::new();
    s.handle(UpMessage::Init(Snapshot { objects: vec![] }));
    s.handle(UpMessage::Init(Snapshot { objects: vec![pose(1.0)] }));
    assert_eq!(s.state.len(), 1);
}

#[test]
fn grab_notifies_previous_holder() {
    let mut s = started(2);
    let a = s.handle(UpMessage::Grab(5, 1));
    match a {
        AppAction::Notify { to, message } => {
            assert_eq!(to, 0);
            assert_eq!(message, AppDown::Release(1));
        }
        _ => panic!("expected a release notice"),
    }
    assert_eq!(s.state[1].owner, 5);
    let a = s.handle(UpMessage::Grab(6, 1));
    match a {
        AppAction::Notify { to, .. } => assert_eq!(to, 5),
        _ => panic!("expected a release notice"),
    }
}

#[test]
fn grab_of_unknown_object_does_nothing() {
    let mut s = started(1);
    assert!(matches!(s.handle(UpMessage::Grab(5, 3)), AppAction::Nothing));
    assert_eq!(s.state[0].owner, 0);
}

#[test]
fn only_holder_moves() {
    let mut s = started(1);
    s.handle(UpMessage::SetPose(5, 0, pose(7.0)));
    assert_eq!(s.state[0].pose, pose(0.0));
    s.handle(UpMessage::Grab(5, 0));
    s.handle(UpMessage::SetPose(5, 0, pose(7.0)));
    assert_eq!(s.state[0].pose, pose(7.0));
    s.handle(UpMessage::SetPose(5, 4, pose(7.0)));
    assert_eq!(s.state.len(), 1);
}

#[test]
fn tick_broadcasts_current_poses() {
    let mut s = started(2);
    s.handle(UpMessage::Grab(5, 0));
    s.handle(UpMessage::SetPose(5, 0, pose(3.0)));
    match s.handle(UpMessage::IntervalLapsed) {
        AppAction::Broadcast(snapshot) => {
            assert_eq!(snapshot.objects, vec![pose(3.0), pose(1.0)]);
            match broadcast_datagram(snapshot) {
                DatagramDown::App(s) => assert_eq!(s.objects.len(), 2),
                _ => panic!("expected an app datagram"),
            }
        }
        _ => panic!("expected a broadcast"),
    }
}

#[test]
fn reset_restores_initial_objects() {
    let mut s = started(2);
    s.handle(UpMessage::Grab(5, 0));
    s.handle(UpMessage::SetPose(5, 0, pose(3.0)));
    s.handle(UpMessage::ResetObjects);
    assert_eq!(s.state, s.initial_state);
    assert_eq!(s.state[0], AppObject { owner: 0, pose: pose(0.0) });
}

#[test]
fn messages_are_flattened() {
    assert!(matches!(
        flatten_message(AppServerMessage::Datagram(4, AppDatagramUp::SetPose(2, pose(1.0)))),
        UpMessage::SetPose(4, 2, p) if p == pose(1.0)
    ));
    assert!(matches!(
        flatten_message(AppServerMessage::AppUp(4, AppUp::Grab(9))),
        UpMessage::Grab(4, 9)
    ));
    assert!(matches!(
        flatten_message(AppServerMessage::AppUp(4, AppUp::Init(Snapshot { objects: vec![pose(1.0)] }))),
        UpMessage::Init(s) if s.objects.len() == 1
    ));
    assert!(matches!(flatten_message(AppServerMessage::ResetObjects), UpMessage::ResetObjects));
}
