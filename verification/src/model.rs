//! Messages and state exchanged between netvr clients and the server.
//!
//! Floating point values never appear in the library: every `f32` of the wire
//! format is carried as its IEEE-754 bit pattern (`f32::to_bits`), which the
//! bookkeeping below only moves around and never interprets.
use std::collections::HashMap;
use vstd::prelude::*;

verus! {

/// Id of a client.
pub type ClientId = u32;

/// Bit pattern of the `f32` value `1.0`.
pub const ONE_BITS: u32 = 0x3f80_0000u32;

/// 3D vector for network communication; each coordinate is the bit pattern
/// of an `f32`.
#[derive(Clone, Copy, PartialEq, Eq, Structural, Debug)]
pub struct Vec3 {
    pub x: u32,
    pub y: u32,
    pub z: u32,
}

impl Default for Vec3 {
    fn default() -> (r: Self)
        ensures
            r == (Vec3 { x: 0, y: 0, z: 0 }),
    {
        Vec3 { x: 0, y: 0, z: 0 }
    }
}

/// Quaternion for network communication; each component is the bit pattern
/// of an `f32`.
#[derive(Clone, Copy, PartialEq, Eq, Structural, Debug)]
pub struct Quaternion {
    pub x: u32,
    pub y: u32,
    pub z: u32,
    pub w: u32,
}

/// The identity rotation (0, 0, 0, 1).
pub open spec fn identity_quaternion() -> Quaternion {
    Quaternion { x: 0, y: 0, z: 0, w: ONE_BITS }
}

impl Default for Quaternion {
    fn default() -> (r: Self)
        ensures
            r == identity_quaternion(),
    {
        Quaternion { x: 0, y: 0, z: 0, w: ONE_BITS }
    }
}

/// Position and orientation in 3D space.
#[derive(Clone, Copy, PartialEq, Eq, Structural, Debug)]
pub struct Pose {
    pub position: Vec3,
    pub orientation: Quaternion,
}

/// The pose at the origin with no rotation.
pub open spec fn identity_pose() -> Pose {
    Pose { position: Vec3 { x: 0, y: 0, z: 0 }, orientation: identity_quaternion() }
}

impl Default for Pose {
    fn default() -> (r: Self)
        ensures
            r == identity_pose(),
    {
        Pose { position: Vec3::default(), orientation: Quaternion::default() }
    }
}

/// Controller data: indices (starting at 1) into the owning client's
/// configuration, and the controller's pose.
#[derive(Clone, Copy, PartialEq, Eq, Structural, Debug)]
pub struct Controller {
    pub interaction_profile: u8,
    pub user_path: u8,
    pub pose: Pose,
}

/// State snapshot of one client.
#[derive(Debug)]
pub struct StateSnapshot {
    pub controllers: Vec<Controller>,
    pub view: Pose,
    pub required_configuration: u32,
}

/// Mathematical model of a [`StateSnapshot`].
pub struct StateSnapshotView {
    pub controllers: Seq<Controller>,
    pub view: Pose,
    pub required_configuration: u32,
}

impl View for StateSnapshot {
    type V = StateSnapshotView;

    open spec fn view(&self) -> StateSnapshotView {
        StateSnapshotView {
            controllers: self.controllers@,
            view: self.view,
            required_configuration: self.required_configuration,
        }
    }
}

/// The snapshot that a newly connected client starts with.
pub open spec fn empty_state_view() -> StateSnapshotView {
    StateSnapshotView {
        controllers: Seq::empty(),
        view: identity_pose(),
        required_configuration: 0,
    }
}

impl Default for StateSnapshot {
    fn default() -> (r: Self)
        ensures
            r@ == empty_state_view(),
    {
        StateSnapshot { controllers: Vec::new(), view: Pose::default(), required_configuration: 0 }
    }
}

impl Clone for StateSnapshot {
    fn clone(&self) -> (r: Self)
        ensures
            r@ == self@,
    {
        let controllers = self.controllers.clone();
        proof {
            assert(controllers@ =~= self.controllers@);
        }
        StateSnapshot {
            controllers,
            view: self.view,
            required_configuration: self.required_configuration,
        }
    }
}

/// Type of an OpenXR action, in a serializable form.
#[derive(Clone, Copy, PartialEq, Eq, Structural, Debug)]
pub enum ActionType {
    Boolean,
    Float,
    Vector2f,
    Pose,
    VibrationOutput,
    Unknown,
}

impl Default for ActionType {
    fn default() -> (r: Self)
        ensures
            r == ActionType::Unknown,
    {
        ActionType::Unknown
    }
}

/// The `ActionType` that an OpenXR `XrActionType` code stands for.
pub open spec fn spec_action_type_from_raw(raw: i32) -> ActionType {
    if raw == 1 {
        ActionType::Boolean
    } else if raw == 2 {
        ActionType::Float
    } else if raw == 3 {
        ActionType::Vector2f
    } else if raw == 4 {
        ActionType::Pose
    } else if raw == 100 {
        ActionType::VibrationOutput
    } else {
        ActionType::Unknown
    }
}

impl ActionType {
    /// Converts a raw OpenXR `XrActionType` code (boolean input 1, float
    /// input 2, vector2f input 3, pose input 4, vibration output 100).
    pub fn from_raw(raw: i32) -> (r: ActionType)
        ensures
            r == spec_action_type_from_raw(raw),
    {
        if raw == 1 {
            ActionType::Boolean
        } else if raw == 2 {
            ActionType::Float
        } else if raw == 3 {
            ActionType::Vector2f
        } else if raw == 4 {
            ActionType::Pose
        } else if raw == 100 {
            ActionType::VibrationOutput
        } else {
            ActionType::Unknown
        }
    }
}

/// Remote OpenXR action data.
#[derive(Debug)]
pub struct RemoteAction {
    pub ty: ActionType,
    pub name: String,
    pub localized_name: String,
    pub binding: String,
}

/// Mathematical model of a [`RemoteAction`].
pub struct RemoteActionView {
    pub ty: ActionType,
    pub name: Seq<char>,
    pub localized_name: Seq<char>,
    pub binding: Seq<char>,
}

impl View for RemoteAction {
    type V = RemoteActionView;

    open spec fn view(&self) -> RemoteActionView {
        RemoteActionView {
            ty: self.ty,
            name: self.name@,
            localized_name: self.localized_name@,
            binding: self.binding@,
        }
    }
}

impl Clone for RemoteAction {
    fn clone(&self) -> (r: Self)
        ensures
            r@ == self@,
    {
        RemoteAction {
            ty: self.ty,
            name: self.name.clone(),
            localized_name: self.localized_name.clone(),
            binding: self.binding.clone(),
        }
    }
}

/// Remote interaction profile data.
#[derive(Debug)]
pub struct RemoteInteractionProfile {
    pub path: String,
    pub bindings: Vec<RemoteAction>,
}

/// Mathematical model of a [`RemoteInteractionProfile`].
pub struct RemoteInteractionProfileView {
    pub path: Seq<char>,
    pub bindings: Seq<RemoteActionView>,
}

impl View for RemoteInteractionProfile {
    type V = RemoteInteractionProfileView;

    open spec fn view(&self) -> RemoteInteractionProfileView {
        RemoteInteractionProfileView {
            path: self.path@,
            bindings: self.bindings@.map_values(|a: RemoteAction| a@),
        }
    }
}

impl Clone for RemoteInteractionProfile {
    fn clone(&self) -> (r: Self)
        ensures
            r@ == self@,
    {
        let bindings = self.bindings.clone();
        proof {
            assert(bindings@.map_values(|a: RemoteAction| a@) =~= self.bindings@.map_values(
                |a: RemoteAction| a@,
            ));
        }
        RemoteInteractionProfile { path: self.path.clone(), bindings }
    }
}

/// Data of a remote configuration.
#[derive(Debug)]
pub struct RemoteConfigurationSnapshot {
    pub version: u32,
    pub user_paths: Vec<String>,
    pub interaction_profiles: Vec<RemoteInteractionProfile>,
    pub name: String,
}

/// Mathematical model of a [`RemoteConfigurationSnapshot`].
pub struct RemoteConfigurationView {
    pub version: u32,
    pub user_paths: Seq<Seq<char>>,
    pub interaction_profiles: Seq<RemoteInteractionProfileView>,
    pub name: Seq<char>,
}

impl View for RemoteConfigurationSnapshot {
    type V = RemoteConfigurationView;

    open spec fn view(&self) -> RemoteConfigurationView {
        RemoteConfigurationView {
            version: self.version,
            user_paths: self.user_paths@.map_values(|p: String| p@),
            interaction_profiles: self.interaction_profiles@.map_values(
                |p: RemoteInteractionProfile| p@,
            ),
            name: self.name@,
        }
    }
}

impl Clone for RemoteConfigurationSnapshot {
    fn clone(&self) -> (r: Self)
        ensures
            r@ == self@,
    {
        let user_paths = self.user_paths.clone();
        let interaction_profiles = self.interaction_profiles.clone();
        proof {
            assert(user_paths@.map_values(|p: String| p@) =~= self.user_paths@.map_values(
                |p: String| p@,
            ));
            assert(interaction_profiles@.map_values(|p: RemoteInteractionProfile| p@)
                =~= self.interaction_profiles@.map_values(|p: RemoteInteractionProfile| p@));
        }
        RemoteConfigurationSnapshot {
            version: self.version,
            user_paths,
            interaction_profiles,
            name: self.name.clone(),
        }
    }
}

/// The configuration of a client that has reported nothing yet.
pub open spec fn empty_configuration_view() -> RemoteConfigurationView {
    RemoteConfigurationView {
        version: 0,
        user_paths: Seq::empty(),
        interaction_profiles: Seq::empty(),
        name: Seq::empty(),
    }
}

impl Default for RemoteConfigurationSnapshot {
    fn default() -> (r: Self)
        ensures
            r@ == empty_configuration_view(),
    {
        let r = RemoteConfigurationSnapshot {
            version: 0,
            user_paths: Vec::new(),
            interaction_profiles: Vec::new(),
            name: String::new(),
        };
        proof {
            assert(r@.user_paths =~= Seq::<Seq<char>>::empty());
            assert(r@.interaction_profiles =~= Seq::<RemoteInteractionProfileView>::empty());
        }
        r
    }
}

/// Data of all remote configurations.
#[derive(Debug)]
pub struct ConfigurationSnapshotSet {
    pub clients: HashMap<ClientId, RemoteConfigurationSnapshot>,
}

impl View for ConfigurationSnapshotSet {
    type V = Map<ClientId, RemoteConfigurationView>;

    open spec fn view(&self) -> Map<ClientId, RemoteConfigurationView> {
        self.clients@.map_values(|c: RemoteConfigurationSnapshot| c@)
    }
}

impl Clone for ConfigurationSnapshotSet {
    fn clone(&self) -> (r: Self)
        ensures
            r@ == self@,
    {
        ConfigurationSnapshotSet { clients: self.clients.clone() }
    }
}

/// All remote state snapshots, with a counter that orders them so that
/// stale sets are not applied.
#[derive(Debug)]
pub struct RemoteStateSnapshotSet {
    pub order: usize,
    pub clients: HashMap<ClientId, StateSnapshot>,
}

/// Mathematical model of a [`RemoteStateSnapshotSet`].
pub struct RemoteStateSetView {
    pub order: usize,
    pub clients: Map<ClientId, StateSnapshotView>,
}

impl View for RemoteStateSnapshotSet {
    type V = RemoteStateSetView;

    open spec fn view(&self) -> RemoteStateSetView {
        RemoteStateSetView {
            order: self.order,
            clients: self.clients@.map_values(|s: StateSnapshot| s@),
        }
    }
}

impl Clone for RemoteStateSnapshotSet {
    fn clone(&self) -> (r: Self)
        ensures
            r@ == self@,
    {
        RemoteStateSnapshotSet { order: self.order, clients: self.clients.clone() }
    }
}

/// Snapshot of one remote client: its configuration and its state.
#[derive(Debug)]
pub struct RemoteClientSnapshot {
    pub configuration: RemoteConfigurationSnapshot,
    pub state: StateSnapshot,
}

/// Mathematical model of a [`RemoteClientSnapshot`].
pub struct RemoteClientView {
    pub configuration: RemoteConfigurationView,
    pub state: StateSnapshotView,
}

impl View for RemoteClientSnapshot {
    type V = RemoteClientView;

    open spec fn view(&self) -> RemoteClientView {
        RemoteClientView { configuration: self.configuration@, state: self.state@ }
    }
}

impl Clone for RemoteClientSnapshot {
    fn clone(&self) -> (r: Self)
        ensures
            r@ == self@,
    {
        RemoteClientSnapshot {
            configuration: self.configuration.clone(),
            state: self.state.clone(),
        }
    }
}

/// Snapshot of all remote clients.
#[derive(Debug)]
pub struct RemoteSnapshot {
    pub clients: HashMap<ClientId, RemoteClientSnapshot>,
}

impl View for RemoteSnapshot {
    type V = Map<ClientId, RemoteClientView>;

    open spec fn view(&self) -> Map<ClientId, RemoteClientView> {
        self.clients@.map_values(|c: RemoteClientSnapshot| c@)
    }
}

/// Space to be used for calibration sample collection.
#[derive(Clone, Copy, PartialEq, Eq, Structural, Debug)]
pub enum BaseSpace {
    Server,
    Stage,
}

/// Configuration options for calibration.
#[derive(Clone, Copy, PartialEq, Eq, Structural, Debug)]
pub struct CalibrationConfiguration {
    pub sample_count: usize,
    pub sample_interval_nanos: i64,
}

/// Sample used for calibration.
#[derive(Clone, Copy, PartialEq, Eq, Structural, Debug)]
pub struct CalibrationSample {
    pub flags: u64,
    pub pose: Pose,
    pub prev_flags: Option<u64>,
    pub prev_pose: Option<Pose>,
    /// The time that was used when requesting the sample.
    pub nanos: i64,
    /// When the sample was requested.
    pub now_nanos: i64,
}

/// What is sent for changing calibration from server to clients.
#[derive(Debug)]
pub enum ConfigurationDown {
    Snapshot(ConfigurationSnapshotSet),
    SetServerSpacePose(Pose),
    TriggerCalibration(String, CalibrationConfiguration, BaseSpace),
    RequestSample(String, BaseSpace),
    StopCalibration,
    ChangeName(String),
}

/// What is sent when the local configuration changes, to notify the server.
#[derive(Debug)]
pub enum ConfigurationUp {
    Hello,
    ConfigurationSnapshot(RemoteConfigurationSnapshot),
}

/// Sent periodically to check that the connection is still alive.
#[derive(Clone, Copy, Debug)]
pub struct Heartbeat {
    buf: [u8; 5],
}

impl Heartbeat {
    /// The payload of the heartbeat.
    pub closed spec fn payload(&self) -> Seq<u8> {
        self.buf@
    }

    /// The payload bytes as sent on the wire.
    pub fn bytes(&self) -> (b: [u8; 5])
        ensures
            b@ == self.payload(),
    {
        self.buf
    }

    /// A heartbeat carrying `buf` verbatim (what a decoder produces).
    pub fn from_bytes(buf: [u8; 5]) -> (r: Heartbeat)
        ensures
            r.payload() == buf@,
    {
        Heartbeat { buf }
    }
}

/// The payload of every heartbeat the server sends: "hello".
pub open spec fn spec_heartbeat_payload() -> Seq<u8> {
    seq![104u8, 101u8, 108u8, 108u8, 111u8]
}

impl Default for Heartbeat {
    fn default() -> (r: Self)
        ensures
            r.payload() == spec_heartbeat_payload(),
    {
        let r = Heartbeat { buf: [104u8, 101u8, 108u8, 108u8, 111u8] };
        assert(r.buf@ =~= spec_heartbeat_payload());
        r
    }
}

/// Returned by operations that produce no data.
#[derive(Clone, Copy, PartialEq, Eq, Structural, Debug)]
pub struct Nothing(u8);

impl Nothing {
    /// The byte the value carries on the wire.
    pub closed spec fn spec_raw(&self) -> u8 {
        self.0
    }

    /// The byte the value carries on the wire.
    pub fn raw(&self) -> (b: u8)
        ensures
            b == self.spec_raw(),
    {
        self.0
    }

    /// A value carrying `b` verbatim (what a decoder produces).
    pub fn from_raw(b: u8) -> (r: Nothing)
        ensures
            r.spec_raw() == b,
    {
        Nothing(b)
    }
}

impl Default for Nothing {
    fn default() -> (r: Self)
        ensures
            r.spec_raw() == 0,
    {
        Nothing(0)
    }
}

/// For passing strings.
#[derive(Debug)]
pub struct OnlyString(pub String);

/// A device of a remote client as handed to the application.
#[derive(Debug)]
pub struct RemoteDevice {
    pub id: u32,
    pub pos: Vec3,
    pub rot: Quaternion,
    pub user_path: String,
    pub interaction_profile: String,
}

/// Mathematical model of a [`RemoteDevice`].
pub struct RemoteDeviceView {
    pub id: u32,
    pub pos: Vec3,
    pub rot: Quaternion,
    pub user_path: Seq<char>,
    pub interaction_profile: Seq<char>,
}

impl View for RemoteDevice {
    type V = RemoteDeviceView;

    open spec fn view(&self) -> RemoteDeviceView {
        RemoteDeviceView {
            id: self.id,
            pos: self.pos,
            rot: self.rot,
            user_path: self.user_path@,
            interaction_profile: self.interaction_profile@,
        }
    }
}

/// Result of reading remote devices.
#[derive(Debug)]
pub struct ReadRemoteDevicesOutput {
    pub devices: Vec<RemoteDevice>,
}

/// What the server sends to a client over the unreliable channel.
#[derive(Debug)]
pub enum DatagramDown {
    App(crate::app::Snapshot),
    State(RemoteStateSnapshotSet),
}

/// What a client sends to the server over the unreliable channel.
#[derive(Debug)]
pub enum DatagramUp {
    State(StateSnapshot),
    App(crate::app::AppDatagramUp),
}

} // verus!
