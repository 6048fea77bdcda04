use netvr::calibration::{
    calibration_input, next_sender_state, plan_calibration, trigger_message, CalibrationInput,
    CalibrationProtocolMessage, CalibrationStep, CalibrationTrigger, SampleCollector, SenderState,
};
use netvr::model::{
    BaseSpace, CalibrationConfiguration, CalibrationSample, ConfigurationDown,
    ConfigurationSnapshotSet, Pose, RemoteConfigurationSnapshot,
};
use std::collections::HashMap;

fn sample(n: i64) -> CalibrationSample {
    CalibrationSample {
        flags: 3,
        pose: Pose::default(),
        prev_flags: None,
        prev_pose: None,
        nanos: n,
        now_nanos: n,
    }
}

#[test]
fn collection_needs_both_clients() {
    let mut c = SampleCollector::new(2, 1, 2);
    assert!(!c.accept(CalibrationProtocolMessage::Sample { client: 1, sample: sample(1) }));
    assert!(!c.accept(CalibrationProtocolMessage::Sample { client: 1, sample: sample(2) }));
    assert!(!c.accept(CalibrationProtocolMessage::Sample { client: 3, sample: sample(3) }));
    assert!(!c.accept(CalibrationProtocolMessage::Sample { client: 2, sample: sample(4) }));
    assert!(c.accept(CalibrationProtocolMessage::Sample { client: 2, sample: sample(5) }));
    let (t, r) = c.into_samples();
    assert_eq!(t.iter().map(|s| s.nanos).collect::<Vec<_>>(), vec![1, 2]);
    assert_eq!(r.iter().map(|s| s.nanos).collect::<Vec<_>>(), vec![4, 5]);
}

#[test]
fn other_messages_do_not_complete_collection() {
    let mut c = SampleCollector::new(0, 1, 2);
    let begin = CalibrationProtocolMessage::Begin {
        client_target: (1, "/user/hand/left".to_string()),
        client_reference: (2, "/user/hand/left".to_string()),
        conf: CalibrationConfiguration { sample_count: 0, sample_interval_nanos: 1 },
    };
    assert!(!c.accept(begin));
    assert!(c.accept(CalibrationProtocolMessage::Sample { client: 9, sample: sample(1) }));
}

#[test]
fn plan_for_each_message() {
    let conf = CalibrationConfiguration { sample_count: 10, sample_interval_nanos: 5 };
    match plan_calibration(CalibrationProtocolMessage::Begin {
        client_target: (1, "a".to_string()),
        client_reference: (2, "b".to_string()),
        conf,
    }) {
        CalibrationStep::Start { target, reference, conf: c } => {
            assert_eq!(target, (1, "a".to_string()));
            assert_eq!(reference, (2, "b".to_string()));
            assert_eq!(c, conf);
        }
        _ => panic!("expected a start"),
    }
    assert!(matches!(
        plan_calibration(CalibrationProtocolMessage::Sample { client: 1, sample: sample(0) }),
        CalibrationStep::Ignore
    ));
    let data = CalibrationInput {
        target: vec![sample(1)],
        target_name: "t".to_string(),
        reference: vec![],
        reference_name: "r".to_string(),
    };
    match plan_calibration(CalibrationProtocolMessage::Reapply {
        client_target: (4, "a".to_string()),
        client_reference: (5, "b".to_string()),
        data,
    }) {
        CalibrationStep::Reapply { target_id, reference_id, data } => {
            assert_eq!((target_id, reference_id), (4, 5));
            assert_eq!(data.target_name, "t");
        }
        _ => panic!("expected a reapply"),
    }
}

#[test]
fn trigger_asks_for_stage_samples() {
    let conf = CalibrationConfiguration { sample_count: 10, sample_interval_nanos: 5 };
    match trigger_message("/user/hand/right".to_string(), conf) {
        ConfigurationDown::TriggerCalibration(p, c, s) => {
            assert_eq!(p, "/user/hand/right");
            assert_eq!(c, conf);
            assert_eq!(s, BaseSpace::Stage);
        }
        _ => panic!("expected a trigger"),
    }
}

#[test]
fn input_is_labelled_with_reported_names() {
    let mut clients = HashMap::new();
    clients.insert(
        1,
        RemoteConfigurationSnapshot {
            version: 1,
            user_paths: vec![],
            interaction_profiles: vec![],
            name: "quest".to_string(),
        },
    );
    let config = ConfigurationSnapshotSet { clients };
    let input = calibration_input(vec![sample(1)], vec![sample(2), sample(3)], &config, 1, 2);
    assert_eq!(input.target_name, "quest");
    assert_eq!(input.reference_name, "");
    assert_eq!(input.target.len(), 1);
    assert_eq!(input.reference.len(), 2);
}

#[test]
fn sender_state_follows_triggers() {
    assert!(matches!(
        next_sender_state(Some(CalibrationTrigger::Start("/user/hand/left".to_string()))),
        Some(SenderState::Sending(p)) if p == "/user/hand/left"
    ));
    assert!(matches!(next_sender_state(Some(CalibrationTrigger::Stop)), Some(SenderState::Idle)));
    assert!(next_sender_state(None).is_none());
}
