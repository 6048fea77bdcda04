use netvr::devices::read_remote_devices;
use netvr::model::{
    ActionType, Controller, Pose, Quaternion, RemoteAction, RemoteClientSnapshot,
    RemoteConfigurationSnapshot, RemoteInteractionProfile, RemoteSnapshot, StateSnapshot, Vec3,
};
use std::collections::HashMap;

fn pose(x: f32) -> Pose {
    Pose {
        position: Vec3 { x: x.to_bits(), y: 0, z: 0 },
        orientation: Quaternion::default(),
    }
}

fn client(controllers: Vec<Controller>) -> RemoteClientSnapshot {
    RemoteClientSnapshot {
        configuration: RemoteConfigurationSnapshot {
            version: 1,
            user_paths: vec!["/user/hand/left".to_string(), "/user/hand/right".to_string()],
            interaction_profiles: vec![RemoteInteractionProfile {
                path: "/interaction_profiles/khr/simple_controller".to_string(),
                bindings: vec![RemoteAction {
                    ty: ActionType::Pose,
                    name: "grip".to_string(),
                    localized_name: "Grip".to_string(),
                    binding: "/user/hand/left/input/grip/pose".to_string(),
                }],
            }],
            name: "quest".to_string(),
        },
        state: StateSnapshot { controllers, view: pose(9.0), required_configuration: 1 },
    }
}

#[test]
fn head_comes_first_then_resolved_controllers() {
    let mut clients = HashMap::new();
    clients.insert(
        3,
        client(vec![
            Controller { interaction_profile: 1, user_path: 2, pose: pose(1.0) },
            Controller { interaction_profile: 2, user_path: 1, pose: pose(2.0) },
            Controller { interaction_profile: 1, user_path: 1, pose: pose(3.0) },
        ]),
    );
    let out = read_remote_devices(&RemoteSnapshot { clients });
    assert_eq!(out.devices.len(), 3);
    assert_eq!(out.devices[0].id, 301);
    assert_eq!(out.devices[0].user_path, "/user/head");
    assert_eq!(out.devices[0].interaction_profile, "generic_hmd");
    assert_eq!(out.devices[0].pos, pose(9.0).position);
    assert_eq!(out.devices[1].id, 302);
    assert_eq!(out.devices[1].user_path, "/user/hand/right");
    assert_eq!(
        out.devices[1].interaction_profile,
        "/interaction_profiles/khr/simple_controller"
    );
    assert_eq!(out.devices[1].pos, pose(1.0).position);
    // the controller with an unknown profile is skipped, numbering continues
    assert_eq!(out.devices[2].id, 303);
    assert_eq!(out.devices[2].user_path, "/user/hand/left");
    assert_eq!(out.devices[2].pos, pose(3.0).position);
}

#[test]
fn each_client_contributes_its_block() {
    let mut clients = HashMap::new();
    clients.insert(1, client(vec![]));
    clients.insert(2, client(vec![Controller { interaction_profile: 1, user_path: 1, pose: pose(1.0) }]));
    let out = read_remote_devices(&RemoteSnapshot { clients });
    let mut ids: Vec<u32> = out.devices.iter().map(|d| d.id).collect();
    ids.sort();
    assert_eq!(ids, vec![101, 201, 202]);
}

#[test]
fn no_clients_no_devices() {
    let out = read_remote_devices(&RemoteSnapshot { clients: HashMap::new() });
    assert!(out.devices.is_empty());
}

#[test]
fn unresolved_profile_skips_user_path_lookup() {
    let mut clients = HashMap::new();
    clients.insert(
        7,
        client(vec![
            Controller { interaction_profile: 5, user_path: 0, pose: pose(1.0) },
            Controller { interaction_profile: 1, user_path: 3, pose: pose(2.0) },
        ]),
    );
    let out = read_remote_devices(&RemoteSnapshot { clients });
    assert_eq!(out.devices.len(), 1);
    assert_eq!(out.devices[0].id, 701);
}
