//! What the server does with requests from the web dashboard.
use crate::calibration::CalibrationProtocolMessage;
use crate::model::{
    CalibrationConfiguration, ClientId, ConfigurationDown, Pose, Quaternion, Vec3, ONE_BITS,
};
use vstd::prelude::*;

verus! {

/// Requests that the dashboard sends to the server.
#[derive(Debug)]
pub enum DashboardMessageRecv {
    MoveSomeClients,
    KeepAlive,
    Init,
    CalibrateByHeadsetPosition,
    TriggerHapticImpulse { client_id: ClientId, subaction_path: String },
    ResetCalibration { client_id: ClientId },
    StartCalibration {
        leader_id: ClientId,
        leader_subaction_path: String,
        follower_id: ClientId,
        follower_subaction_path: String,
        sample_count: usize,
    },
}

/// What the server does for a dashboard request.
#[derive(Debug)]
pub enum DashboardAction {
    /// Send this to the first connected client, if there is one.
    SendToFirstClient(ConfigurationDown),
    /// Nothing to do.
    Nothing,
    /// Reply to the dashboard with the latest configurations.
    ReplyConfiguration,
    /// Hand this to the calibration protocol.
    Calibrate(CalibrationProtocolMessage),
    /// A request that the server does not act on; it is only logged.
    LogOnly,
}

/// Interval between two calibration samples: the sender's 20 ms.
pub const SAMPLE_INTERVAL_NANOS: i64 = 20_000_000i64;

/// The pose that "move some clients" places the first client's server
/// space at: one metre along z, without rotation.
pub open spec fn moved_pose() -> Pose {
    Pose {
        position: Vec3 { x: 0, y: 0, z: ONE_BITS },
        orientation: Quaternion { x: 0, y: 0, z: 0, w: ONE_BITS },
    }
}

/// Decides what the server does for a dashboard request. A calibration
/// aligns the follower's device (the target) to the leader's (the
/// reference).
pub fn dashboard_action(message: DashboardMessageRecv) -> (a: DashboardAction)
    ensures
        match message {
            DashboardMessageRecv::MoveSomeClients => a matches DashboardAction::SendToFirstClient(
                ConfigurationDown::SetServerSpacePose(p),
            ) && p == moved_pose(),
            DashboardMessageRecv::KeepAlive => a is Nothing,
            DashboardMessageRecv::Init => a is ReplyConfiguration,
            DashboardMessageRecv::StartCalibration {
                leader_id,
                leader_subaction_path,
                follower_id,
                follower_subaction_path,
                sample_count,
            } => a matches DashboardAction::Calibrate(
                CalibrationProtocolMessage::Begin { client_target, client_reference, conf },
            ) && client_target.0 == follower_id && client_target.1@ == follower_subaction_path@
                && client_reference.0 == leader_id && client_reference.1@ == leader_subaction_path@
                && conf == (CalibrationConfiguration {
                sample_count,
                sample_interval_nanos: SAMPLE_INTERVAL_NANOS,
            }),
            _ => a is LogOnly,
        },
{
    match message {
        DashboardMessageRecv::MoveSomeClients => DashboardAction::SendToFirstClient(
            ConfigurationDown::SetServerSpacePose(
                Pose {
                    position: Vec3 { x: 0, y: 0, z: ONE_BITS },
                    orientation: Quaternion { x: 0, y: 0, z: 0, w: ONE_BITS },
                },
            ),
        ),
        DashboardMessageRecv::KeepAlive => DashboardAction::Nothing,
        DashboardMessageRecv::Init => DashboardAction::ReplyConfiguration,
        DashboardMessageRecv::StartCalibration {
            leader_id,
            leader_subaction_path,
            follower_id,
            follower_subaction_path,
            sample_count,
        } => DashboardAction::Calibrate(
            CalibrationProtocolMessage::Begin {
                client_target: (follower_id, follower_subaction_path),
                client_reference: (leader_id, leader_subaction_path),
                conf: CalibrationConfiguration {
                    sample_count,
                    sample_interval_nanos: SAMPLE_INTERVAL_NANOS,
                },
            },
        ),
        DashboardMessageRecv::CalibrateByHeadsetPosition => DashboardAction::LogOnly,
        DashboardMessageRecv::ResetCalibration { .. } => DashboardAction::LogOnly,
        DashboardMessageRecv::TriggerHapticImpulse { .. } => DashboardAction::LogOnly,
    }
}

} // verus!
