use netvr::model::{
    ConfigurationSnapshotSet, Controller, Pose, Quaternion, RemoteClientSnapshot,
    RemoteConfigurationSnapshot, RemoteSnapshot, RemoteStateSnapshotSet, StateSnapshot, Vec3,
};
use std::collections::HashMap;

fn pose(x: f32) -> Pose {
    Pose {
        position: Vec3 { x: x.to_bits(), y: 0, z: 0 },
        orientation: Quaternion { x: 0, y: 0, z: 0, w: 1.0f32.to_bits() },
    }
}

fn config(version: u32, name: &str) -> RemoteConfigurationSnapshot {
    RemoteConfigurationSnapshot {
        version,
        user_paths: vec!["/user/hand/left".to_string()],
        interaction_profiles: vec![],
        name: name.to_string(),
    }
}

fn state(required: u32, x: f32) -> StateSnapshot {
    StateSnapshot {
        controllers: vec![Controller { interaction_profile: 1, user_path: 1, pose: pose(x) }],
        view: pose(x),
        required_configuration: required,
    }
}

fn sets(
    configs: Vec<(u32, RemoteConfigurationSnapshot)>,
    states: Vec<(u32, StateSnapshot)>,
) -> (ConfigurationSnapshotSet, RemoteStateSnapshotSet) {
    (
        ConfigurationSnapshotSet { clients: configs.into_iter().collect() },
        RemoteStateSnapshotSet { order: 1, clients: states.into_iter().collect() },
    )
}

#[test]
fn fitting_pair_is_merged() {
    let (c, s) = sets(vec![(1, config(2, "a"))], vec![(1, state(2, 1.0))]);
    let mut merged = RemoteSnapshot { clients: HashMap::new() };
    merged.update_merged(&s, &c);
    let entry = merged.clients.get(&1).unwrap();
    assert_eq!(entry.configuration.version, 2);
    assert_eq!(entry.configuration.name, "a");
    assert_eq!(entry.state.required_configuration, 2);
    assert_eq!(entry.state.view, pose(1.0));
}

#[test]
fn state_for_other_version_is_not_merged_for_new_client() {
    let (c, s) = sets(vec![(1, config(2, "a"))], vec![(1, state(1, 1.0))]);
    let mut merged = RemoteSnapshot { clients: HashMap::new() };
    merged.update_merged(&s, &c);
    assert!(merged.clients.is_empty());
}

#[test]
fn client_without_configuration_is_dropped() {
    let (c, s) = sets(vec![], vec![(1, state(2, 1.0))]);
    let mut merged = RemoteSnapshot { clients: HashMap::new() };
    merged.clients.insert(
        1,
        RemoteClientSnapshot { configuration: config(2, "a"), state: state(2, 0.0) },
    );
    merged.update_merged(&s, &c);
    assert!(merged.clients.is_empty());
}

#[test]
fn newer_configuration_waits_for_its_state() {
    // merged holds version 1; a version-2 configuration arrives while the
    // state still requires version 1: the state moves forward, the
    // configuration stays at version 1.
    let (c, s) = sets(vec![(7, config(2, "new"))], vec![(7, state(1, 3.0))]);
    let mut merged = RemoteSnapshot { clients: HashMap::new() };
    merged.clients.insert(
        7,
        RemoteClientSnapshot { configuration: config(1, "old"), state: state(1, 0.0) },
    );
    merged.update_merged(&s, &c);
    let entry = merged.clients.get(&7).unwrap();
    assert_eq!(entry.configuration.version, 1);
    assert_eq!(entry.configuration.name, "old");
    assert_eq!(entry.state.view, pose(3.0));
}

#[test]
fn merged_state_already_for_new_configuration_moves_configuration() {
    // the merged state already requires version 2, the latest state requires
    // version 3: the configuration moves forward to version 2.
    let (c, s) = sets(vec![(7, config(2, "new"))], vec![(7, state(3, 3.0))]);
    let mut merged = RemoteSnapshot { clients: HashMap::new() };
    merged.clients.insert(
        7,
        RemoteClientSnapshot { configuration: config(1, "old"), state: state(2, 0.0) },
    );
    merged.update_merged(&s, &c);
    let entry = merged.clients.get(&7).unwrap();
    assert_eq!(entry.configuration.version, 2);
    assert_eq!(entry.configuration.name, "new");
    assert_eq!(entry.state.view, pose(0.0));
}

#[test]
fn missing_state_keeps_previous_entry() {
    let (c, s) = sets(vec![(7, config(5, "x"))], vec![]);
    let mut merged = RemoteSnapshot { clients: HashMap::new() };
    merged.clients.insert(
        7,
        RemoteClientSnapshot { configuration: config(1, "old"), state: state(1, 0.0) },
    );
    merged.update_merged(&s, &c);
    let entry = merged.clients.get(&7).unwrap();
    assert_eq!(entry.configuration.version, 1);
}

#[test]
fn merging_twice_changes_nothing_more() {
    let (c, s) = sets(
        vec![(1, config(2, "a")), (2, config(3, "b"))],
        vec![(1, state(2, 1.0)), (2, state(1, 2.0))],
    );
    let mut merged = RemoteSnapshot { clients: HashMap::new() };
    merged.update_merged(&s, &c);
    let first: Vec<u32> = {
        let mut k: Vec<u32> = merged.clients.keys().cloned().collect();
        k.sort();
        k
    };
    merged.update_merged(&s, &c);
    let mut second: Vec<u32> = merged.clients.keys().cloned().collect();
    second.sort();
    assert_eq!(first, vec![1]);
    assert_eq!(second, vec![1]);
}

#[test]
fn every_merged_client_is_consistent() {
    let (c, s) = sets(
        vec![(1, config(2, "a")), (2, config(4, "b")), (3, config(1, "c"))],
        vec![(1, state(2, 1.0)), (2, state(3, 2.0)), (3, state(1, 3.0))],
    );
    let mut merged = RemoteSnapshot { clients: HashMap::new() };
    merged.clients.insert(
        2,
        RemoteClientSnapshot { configuration: config(3, "b0"), state: state(3, 0.0) },
    );
    merged.update_merged(&s, &c);
    for (_, client) in merged.clients.iter() {
        assert_eq!(client.state.required_configuration, client.configuration.version);
    }
    assert_eq!(merged.clients.len(), 3);
}
