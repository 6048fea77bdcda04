use netvr::calibration::CalibrationProtocolMessage;
use netvr::dashboard::{dashboard_action, DashboardAction, DashboardMessageRecv, SAMPLE_INTERVAL_NANOS};
use netvr::model::ConfigurationDown;

#[test]
fn move_some_clients_moves_first_client_one_metre() {
    match dashboard_action(DashboardMessageRecv::MoveSomeClients) {
        DashboardAction::SendToFirstClient(ConfigurationDown::SetServerSpacePose(p)) => {
            assert_eq!(f32::from_bits(p.position.z), 1.0);
            assert_eq!(p.position.x, 0);
            assert_eq!(f32::from_bits(p.orientation.w), 1.0);
        }
        _ => panic!("expected a pose for the first client"),
    }
}

#[test]
fn simple_requests() {
    assert!(matches!(dashboard_action(DashboardMessageRecv::KeepAlive), DashboardAction::Nothing));
    assert!(matches!(dashboard_action(DashboardMessageRecv::Init), DashboardAction::ReplyConfiguration));
    assert!(matches!(
        dashboard_action(DashboardMessageRecv::CalibrateByHeadsetPosition),
        DashboardAction::LogOnly
    ));
    assert!(matches!(
        dashboard_action(DashboardMessageRecv::ResetCalibration { client_id: 1 }),
        DashboardAction::LogOnly
    ));
    assert!(matches!(
        dashboard_action(DashboardMessageRecv::TriggerHapticImpulse {
            client_id: 1,
            subaction_path: "/user/hand/left".to_string()
        }),
        DashboardAction::LogOnly
    ));
}

#[test]
fn start_calibration_aligns_follower_to_leader() {
    match dashboard_action(DashboardMessageRecv::StartCalibration {
        leader_id: 1,
        leader_subaction_path: "/user/hand/left".to_string(),
        follower_id: 2,
        follower_subaction_path: "/user/hand/right".to_string(),
        sample_count: 500,
    }) {
        DashboardAction::Calibrate(CalibrationProtocolMessage::Begin {
            client_target,
            client_reference,
            conf,
        }) => {
            assert_eq!(client_target, (2, "/user/hand/right".to_string()));
            assert_eq!(client_reference, (1, "/user/hand/left".to_string()));
            assert_eq!(conf.sample_count, 500);
            assert_eq!(conf.sample_interval_nanos, SAMPLE_INTERVAL_NANOS);
        }
        _ => panic!("expected a calibration request"),
    }
}
