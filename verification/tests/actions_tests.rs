use netvr::actions::{
    add_action, add_action_set, attached_profiles, attached_user_paths, instance_extensions,
    record_suggested_bindings, remove_action_set, ActionRecord, ActionSetRecord, AttachedBinding,
};
use netvr::model::ActionType;
use std::collections::HashMap;

fn action(handle: u64) -> ActionRecord {
    ActionRecord {
        handle,
        paths: HashMap::new(),
        ty: ActionType::Pose,
        name: format!("a{handle}"),
        localized_name: format!("A{handle}"),
        subaction_paths: vec![1, 2],
    }
}

#[test]
fn suggestions_are_recorded_per_action() {
    let mut sets = vec![
        ActionSetRecord { handle: 100, actions: vec![action(1), action(2)] },
        ActionSetRecord { handle: 200, actions: vec![action(3)] },
    ];
    record_suggested_bindings(&mut sets, 50, &vec![(1, 11), (3, 33), (9, 99)]);
    assert_eq!(sets[0].actions[0].paths.get(&50), Some(&11));
    assert_eq!(sets[0].actions[1].paths.get(&50), None);
    assert_eq!(sets[1].actions[0].paths.get(&50), Some(&33));
    assert_eq!(sets[1].actions[0].name, "a3");
    assert_eq!(sets[1].handle, 200);
}

#[test]
fn later_suggestion_wins_and_profiles_are_kept_apart() {
    let mut sets = vec![ActionSetRecord { handle: 1, actions: vec![action(7)] }];
    record_suggested_bindings(&mut sets, 60, &vec![(7, 1), (7, 2)]);
    record_suggested_bindings(&mut sets, 61, &vec![(7, 3)]);
    assert_eq!(sets[0].actions[0].paths.get(&60), Some(&2));
    assert_eq!(sets[0].actions[0].paths.get(&61), Some(&3));
    assert_eq!(sets[0].actions[0].paths.len(), 2);
}

#[test]
fn timespec_added_when_offered_and_missing() {
    let r = instance_extensions(vec![b"XR_A".to_vec()], true, false);
    assert_eq!(r, vec![b"XR_A".to_vec(), b"XR_KHR_convert_timespec_time".to_vec()]);
}

#[test]
fn timespec_not_duplicated_or_added_when_not_offered() {
    let asked = vec![b"XR_KHR_convert_timespec_time".to_vec()];
    assert_eq!(instance_extensions(asked.clone(), true, false), asked);
    assert_eq!(instance_extensions(vec![], false, false), Vec::<Vec<u8>>::new());
}

#[test]
fn performance_counter_added_after_timespec() {
    let r = instance_extensions(vec![], true, true);
    assert_eq!(
        r,
        vec![
            b"XR_KHR_convert_timespec_time".to_vec(),
            b"XR_KHR_win32_convert_performance_counter_time".to_vec()
        ]
    );
}

fn bound(handle: u64, ty: ActionType, paths: &[(u64, u64)], subaction_paths: Vec<u64>) -> ActionRecord {
    ActionRecord {
        handle,
        paths: paths.iter().cloned().collect(),
        ty,
        name: format!("a{handle}"),
        localized_name: format!("A{handle}"),
        subaction_paths,
    }
}

fn sample_sets() -> Vec<ActionSetRecord> {
    vec![
        ActionSetRecord {
            handle: 10,
            actions: vec![
                bound(1, ActionType::Pose, &[(100, 1001), (200, 2001)], vec![7, 8]),
                bound(2, ActionType::Boolean, &[(100, 1002)], vec![9]),
            ],
        },
        ActionSetRecord {
            handle: 20,
            actions: vec![
                bound(3, ActionType::Pose, &[], vec![5]),
                bound(4, ActionType::Float, &[(300, 3004)], vec![]),
            ],
        },
    ]
}

#[test]
fn attached_actions_are_grouped_by_profile() {
    let sets = sample_sets();
    let mut groups = attached_profiles(&sets, &vec![10, 99]);
    groups.sort_by_key(|g| g.profile);
    assert_eq!(groups.len(), 2);
    assert_eq!(groups[0].profile, 100);
    assert_eq!(
        groups[0].bindings,
        vec![
            AttachedBinding { set: 0, action: 0, binding: 1001 },
            AttachedBinding { set: 0, action: 1, binding: 1002 }
        ]
    );
    assert_eq!(groups[1].profile, 200);
    assert_eq!(groups[1].bindings, vec![AttachedBinding { set: 0, action: 0, binding: 2001 }]);
}

#[test]
fn unattached_sets_are_left_out() {
    let sets = sample_sets();
    let groups = attached_profiles(&sets, &vec![20]);
    assert_eq!(groups.len(), 1);
    assert_eq!(groups[0].profile, 300);
    assert_eq!(groups[0].bindings, vec![AttachedBinding { set: 1, action: 1, binding: 3004 }]);
    assert!(attached_profiles(&sets, &vec![]).is_empty());
}

#[test]
fn user_paths_come_from_bound_pose_actions() {
    let sets = sample_sets();
    let mut paths = attached_user_paths(&sets, &vec![10, 20, 10]);
    paths.sort();
    // action 3 is a pose action without bindings, action 2 is not a pose action
    assert_eq!(paths, vec![7, 8]);
}

#[test]
fn action_sets_are_registered_and_removed() {
    let mut sets = Vec::new();
    add_action_set(&mut sets, 5);
    add_action_set(&mut sets, 6);
    assert_eq!(add_action(&mut sets, 5, action(1)), Ok(()));
    assert_eq!(add_action(&mut sets, 7, action(2)), Err(-12));
    assert_eq!(sets[0].actions.len(), 1);
    add_action_set(&mut sets, 5);
    assert_eq!(sets.len(), 2);
    assert_eq!(sets[0].actions.len(), 0);
    remove_action_set(&mut sets, 5);
    assert_eq!(sets.len(), 1);
    assert_eq!(sets[0].handle, 6);
    remove_action_set(&mut sets, 5);
    assert_eq!(sets.len(), 1);
}
