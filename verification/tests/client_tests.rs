use netvr::calibration::CalibrationTrigger;
use netvr::client::{
    configuration_action, plan_controller, to_remote_action, to_remote_configuration,
    to_remote_profile, ClientConfigurationAction, InteractionProfile, LocalAction,
    LocalConfigurationSnapshot,
};
use netvr::model::{
    ActionType, BaseSpace, CalibrationConfiguration, ConfigurationDown, ConfigurationSnapshotSet,
    Pose, RemoteStateSnapshotSet,
};
use std::collections::HashMap;

fn action(ty: ActionType, name: &str, spaces: Option<Vec<(u64, u64)>>) -> LocalAction {
    LocalAction {
        ty,
        name: name.to_string(),
        localized_name: name.to_uppercase(),
        binding: format!("/input/{}", name),
        spaces: spaces.map(|s| s.into_iter().collect::<HashMap<u64, u64>>()),
    }
}

fn local_configuration() -> LocalConfigurationSnapshot {
    LocalConfigurationSnapshot {
        version: 3,
        interaction_profiles: vec![
            InteractionProfile {
                path: "/interaction_profiles/a".to_string(),
                bindings: vec![action(ActionType::Boolean, "click", None)],
                path_handle: 100,
            },
            InteractionProfile {
                path: "/interaction_profiles/b".to_string(),
                bindings: vec![
                    action(ActionType::Boolean, "click", None),
                    action(ActionType::Pose, "aim", Some(vec![(10, 1000)])),
                    action(ActionType::Pose, "grip", Some(vec![(10, 1001), (11, 1002)])),
                ],
                path_handle: 200,
            },
        ],
        user_paths: vec![(10, "/user/hand/left".to_string()), (11, "/user/hand/right".to_string())],
        name: "quest".to_string(),
    }
}

#[test]
fn newer_state_sets_replace_older_ones() {
    let mut held = RemoteStateSnapshotSet { order: 5, clients: HashMap::new() };
    assert!(!held.apply_if_newer(RemoteStateSnapshotSet { order: 4, clients: HashMap::new() }));
    assert_eq!(held.order, 5);
    assert!(!held.apply_if_newer(RemoteStateSnapshotSet { order: 5, clients: HashMap::new() }));
    assert!(held.apply_if_newer(RemoteStateSnapshotSet { order: 6, clients: HashMap::new() }));
    assert_eq!(held.order, 6);
}

#[test]
fn configuration_messages_map_to_actions() {
    assert!(matches!(
        configuration_action(ConfigurationDown::Snapshot(ConfigurationSnapshotSet { clients: HashMap::new() })),
        ClientConfigurationAction::StoreConfigurations(_)
    ));
    assert!(matches!(
        configuration_action(ConfigurationDown::SetServerSpacePose(Pose::default())),
        ClientConfigurationAction::SetServerSpacePose(p) if p == Pose::default()
    ));
    let conf = CalibrationConfiguration { sample_count: 1, sample_interval_nanos: 1 };
    assert!(matches!(
        configuration_action(ConfigurationDown::TriggerCalibration("/user/hand/left".to_string(), conf, BaseSpace::Stage)),
        ClientConfigurationAction::Calibration(CalibrationTrigger::Start(p)) if p == "/user/hand/left"
    ));
    assert!(matches!(
        configuration_action(ConfigurationDown::StopCalibration),
        ClientConfigurationAction::Calibration(CalibrationTrigger::Stop)
    ));
    assert!(matches!(
        configuration_action(ConfigurationDown::ChangeName("x".to_string())),
        ClientConfigurationAction::Rename(n) if n == "x"
    ));
    assert!(matches!(
        configuration_action(ConfigurationDown::RequestSample("x".to_string(), BaseSpace::Server)),
        ClientConfigurationAction::Ignore
    ));
}

#[test]
fn remote_configuration_drops_handles() {
    let r = to_remote_configuration(local_configuration());
    assert_eq!(r.version, 3);
    assert_eq!(r.name, "quest");
    assert_eq!(r.user_paths, vec!["/user/hand/left".to_string(), "/user/hand/right".to_string()]);
    assert_eq!(r.interaction_profiles.len(), 2);
    assert_eq!(r.interaction_profiles[1].path, "/interaction_profiles/b");
    let names: Vec<&str> = r.interaction_profiles[1].bindings.iter().map(|b| b.name.as_str()).collect();
    assert_eq!(names, vec!["click", "aim", "grip"]);
    assert_eq!(r.interaction_profiles[1].bindings[1].ty, ActionType::Pose);
    assert_eq!(r.interaction_profiles[1].bindings[1].localized_name, "AIM");
    assert_eq!(r.interaction_profiles[1].bindings[1].binding, "/input/aim");
}

#[test]
fn single_conversions() {
    let a = to_remote_action(action(ActionType::Float, "trigger", None));
    assert_eq!(a.ty, ActionType::Float);
    assert_eq!(a.name, "trigger");
    let p = to_remote_profile(InteractionProfile {
        path: "/p".to_string(),
        bindings: vec![],
        path_handle: 1,
    });
    assert_eq!(p.path, "/p");
    assert!(p.bindings.is_empty());
}

#[test]
fn controller_plan_lists_pose_spaces_in_order() {
    let conf = local_configuration();
    let plan = plan_controller(&conf, 10, 200).unwrap();
    assert_eq!(plan.interaction_profile, 2);
    assert_eq!(plan.user_path, 1);
    assert_eq!(plan.spaces, vec![1000, 1001]);
    let plan = plan_controller(&conf, 11, 200).unwrap();
    assert_eq!(plan.user_path, 2);
    assert_eq!(plan.spaces, vec![1002]);
}

#[test]
fn controller_plan_needs_profile_path_and_space() {
    let conf = local_configuration();
    assert!(plan_controller(&conf, 10, 300).is_none());
    assert!(plan_controller(&conf, 12, 200).is_none());
    assert!(plan_controller(&conf, 10, 100).is_none());
}

#[test]
fn action_type_from_raw_codes() {
    assert_eq!(ActionType::from_raw(1), ActionType::Boolean);
    assert_eq!(ActionType::from_raw(2), ActionType::Float);
    assert_eq!(ActionType::from_raw(3), ActionType::Vector2f);
    assert_eq!(ActionType::from_raw(4), ActionType::Pose);
    assert_eq!(ActionType::from_raw(100), ActionType::VibrationOutput);
    assert_eq!(ActionType::from_raw(0), ActionType::Unknown);
    assert_eq!(ActionType::default(), ActionType::Unknown);
}
