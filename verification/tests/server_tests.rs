use netvr::model::{Controller, Pose, Quaternion, RemoteConfigurationSnapshot, StateSnapshot, Vec3};
use netvr::model::DatagramDown;
use netvr::server::{ServerChange, ServerState};

fn snapshot(required: u32) -> StateSnapshot {
    StateSnapshot {
        controllers: vec![Controller {
            interaction_profile: 1,
            user_path: 1,
            pose: Pose::default(),
        }],
        view: Pose {
            position: Vec3 { x: 2.0f32.to_bits(), y: 0, z: 0 },
            orientation: Quaternion::default(),
        },
        required_configuration: required,
    }
}

fn config(version: u32) -> RemoteConfigurationSnapshot {
    RemoteConfigurationSnapshot {
        version,
        user_paths: vec!["/user/head".to_string()],
        interaction_profiles: vec![],
        name: "quest".to_string(),
    }
}

#[test]
fn new_server_is_empty() {
    let s = ServerState::new();
    assert_eq!(s.latest_snapshots.order, 0);
    assert!(s.latest_snapshots.clients.is_empty());
    assert!(s.latest_configurations.clients.is_empty());
}

#[test]
fn add_client_creates_empty_entries() {
    let mut s = ServerState::new();
    assert!(s.apply_change(ServerChange::AddClient(3)));
    assert_eq!(s.latest_snapshots.order, 1);
    let st = s.latest_snapshots.clients.get(&3).unwrap();
    assert!(st.controllers.is_empty());
    assert_eq!(st.required_configuration, 0);
    assert_eq!(st.view, Pose::default());
    assert_eq!(st.view.orientation.w, 1.0f32.to_bits());
    let c = s.latest_configurations.clients.get(&3).unwrap();
    assert_eq!(c.version, 0);
    assert!(c.user_paths.is_empty());
    assert_eq!(c.name, "");
}

#[test]
fn snapshot_of_known_client_is_recorded() {
    let mut s = ServerState::new();
    s.apply_change(ServerChange::AddClient(3));
    assert!(!s.apply_change(ServerChange::SetSnapshot(3, snapshot(4))));
    assert_eq!(s.latest_snapshots.order, 2);
    assert_eq!(s.latest_snapshots.clients.get(&3).unwrap().required_configuration, 4);
}

#[test]
fn snapshot_of_unknown_client_is_ignored() {
    let mut s = ServerState::new();
    s.apply_change(ServerChange::AddClient(3));
    assert!(!s.apply_change(ServerChange::SetSnapshot(9, snapshot(4))));
    assert_eq!(s.latest_snapshots.order, 1);
    assert!(s.latest_snapshots.clients.get(&9).is_none());
}

#[test]
fn configuration_of_known_client_notifies() {
    let mut s = ServerState::new();
    s.apply_change(ServerChange::AddClient(3));
    assert!(s.apply_change(ServerChange::SetConfiguration(3, config(7))));
    assert_eq!(s.latest_configurations.clients.get(&3).unwrap().version, 7);
    assert_eq!(s.latest_snapshots.order, 1);
}

#[test]
fn configuration_of_unknown_client_is_ignored() {
    let mut s = ServerState::new();
    assert!(!s.apply_change(ServerChange::SetConfiguration(3, config(7))));
    assert!(s.latest_configurations.clients.is_empty());
}

#[test]
fn remove_client_drops_both_entries() {
    let mut s = ServerState::new();
    s.apply_change(ServerChange::AddClient(3));
    s.apply_change(ServerChange::AddClient(4));
    assert!(s.apply_change(ServerChange::RemoveClient(3)));
    assert_eq!(s.latest_snapshots.order, 3);
    assert!(s.latest_snapshots.clients.get(&3).is_none());
    assert!(s.latest_configurations.clients.get(&3).is_none());
    assert!(s.latest_snapshots.clients.get(&4).is_some());
}

#[test]
fn add_then_remove_leaves_no_trace() {
    let mut s = ServerState::new();
    s.apply_change(ServerChange::AddClient(1));
    s.apply_change(ServerChange::AddClient(2));
    s.apply_change(ServerChange::RemoveClient(2));
    assert_eq!(s.latest_snapshots.order, 3);
    assert_eq!(s.latest_snapshots.clients.len(), 1);
    assert_eq!(s.latest_configurations.clients.len(), 1);
}

#[test]
fn clients_stay_aligned() {
    let mut s = ServerState::new();
    for change in [
        ServerChange::AddClient(1),
        ServerChange::AddClient(2),
        ServerChange::SetSnapshot(5, snapshot(1)),
        ServerChange::SetConfiguration(6, config(1)),
        ServerChange::RemoveClient(1),
        ServerChange::RemoveClient(9),
    ] {
        s.apply_change(change);
        let mut a: Vec<u32> = s.latest_snapshots.clients.keys().cloned().collect();
        let mut b: Vec<u32> = s.latest_configurations.clients.keys().cloned().collect();
        a.sort();
        b.sort();
        assert_eq!(a, b);
    }
}

#[test]
fn snapshots_for_client_exclude_itself() {
    let mut s = ServerState::new();
    s.apply_change(ServerChange::AddClient(1));
    s.apply_change(ServerChange::AddClient(2));
    s.apply_change(ServerChange::SetSnapshot(2, snapshot(5)));
    match s.snapshots_for_client(1) {
        DatagramDown::State(set) => {
            assert_eq!(set.order, 3);
            assert!(set.clients.get(&1).is_none());
            assert_eq!(set.clients.get(&2).unwrap().required_configuration, 5);
        }
        DatagramDown::App(_) => panic!("expected a state datagram"),
    }
}
