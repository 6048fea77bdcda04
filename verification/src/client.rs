//! The client side of the connection: what a client keeps of the data it
//! receives, and how it describes its own devices to the server.
use crate::calibration::CalibrationTrigger;
use crate::model::{
    ActionType, ConfigurationDown, ConfigurationSnapshotSet, Pose, RemoteAction,
    RemoteActionView, RemoteConfigurationSnapshot, RemoteConfigurationView,
    RemoteInteractionProfile, RemoteInteractionProfileView, RemoteStateSetView,
    RemoteStateSnapshotSet,
};
use std::collections::HashMap;
use vstd::prelude::*;

verus! {

broadcast use vstd::std_specs::hash::group_hash_axioms;

/// The state set a client keeps after receiving `incoming` while holding
/// `current`: sets that arrive out of order are dropped.
pub open spec fn newer_state(current: RemoteStateSetView, incoming: RemoteStateSetView) -> RemoteStateSetView {
    if incoming.order > current.order {
        incoming
    } else {
        current
    }
}

impl RemoteStateSnapshotSet {
    /// Replaces the held set with `incoming` if `incoming` is newer; returns
    /// whether it did.
    pub fn apply_if_newer(&mut self, incoming: RemoteStateSnapshotSet) -> (applied: bool)
        ensures
            applied == (incoming.order > old(self).order),
            final(self)@ == newer_state(old(self)@, incoming@),
    {
        if incoming.order > self.order {
            *self = incoming;
            true
        } else {
            false
        }
    }
}

/// The order of the held state set never goes back, whatever arrives.
pub proof fn held_order_never_decreases(current: RemoteStateSetView, incoming: RemoteStateSetView)
    ensures
        newer_state(current, incoming).order >= current.order,
        newer_state(newer_state(current, incoming), incoming) == newer_state(current, incoming),
{
}

/// What a client does with a message on its configuration stream.
#[derive(Debug)]
pub enum ClientConfigurationAction {
    /// Replace the remote configurations, then merge again.
    StoreConfigurations(ConfigurationSnapshotSet),
    /// Move the server space to this pose, then merge again.
    SetServerSpacePose(Pose),
    /// Tell the sample sender.
    Calibration(CalibrationTrigger),
    /// Rename the local client and save its settings.
    Rename(String),
    /// Nothing to do.
    Ignore,
}

/// Decides what a client does with a message from the server.
pub fn configuration_action(message: ConfigurationDown) -> (a: ClientConfigurationAction)
    ensures
        match message {
            ConfigurationDown::Snapshot(s) => a matches ClientConfigurationAction::StoreConfigurations(
                t,
            ) && t@ == s@,
            ConfigurationDown::SetServerSpacePose(p) => a
                == ClientConfigurationAction::SetServerSpacePose(p),
            ConfigurationDown::TriggerCalibration(path, _, _) => a matches ClientConfigurationAction::Calibration(
                CalibrationTrigger::Start(q),
            ) && q@ == path@,
            ConfigurationDown::RequestSample(_, _) => a is Ignore,
            ConfigurationDown::StopCalibration => a matches ClientConfigurationAction::Calibration(
                CalibrationTrigger::Stop,
            ),
            ConfigurationDown::ChangeName(n) => a matches ClientConfigurationAction::Rename(m) && m@
                == n@,
        },
{
    match message {
        ConfigurationDown::Snapshot(s) => ClientConfigurationAction::StoreConfigurations(s),
        ConfigurationDown::SetServerSpacePose(p) => ClientConfigurationAction::SetServerSpacePose(p),
        ConfigurationDown::TriggerCalibration(path, _, _) => ClientConfigurationAction::Calibration(
            CalibrationTrigger::Start(path),
        ),
        ConfigurationDown::RequestSample(_, _) => ClientConfigurationAction::Ignore,
        ConfigurationDown::StopCalibration => ClientConfigurationAction::Calibration(
            CalibrationTrigger::Stop,
        ),
        ConfigurationDown::ChangeName(n) => ClientConfigurationAction::Rename(n),
    }
}

/// A locally bound action; `spaces` maps each subaction path to the space
/// created for it (pose actions only). Paths and spaces are OpenXR handles.
#[derive(Debug)]
pub struct LocalAction {
    pub ty: ActionType,
    pub name: String,
    pub localized_name: String,
    pub binding: String,
    pub spaces: Option<HashMap<u64, u64>>,
}

/// A locally active interaction profile and its bindings.
#[derive(Debug)]
pub struct InteractionProfile {
    pub path: String,
    pub bindings: Vec<LocalAction>,
    pub path_handle: u64,
}

/// The local configuration: what the application bound to which device.
#[derive(Debug)]
pub struct LocalConfigurationSnapshot {
    pub version: u32,
    pub interaction_profiles: Vec<InteractionProfile>,
    pub user_paths: Vec<(u64, String)>,
    pub name: String,
}

/// What the server learns of a local action.
pub open spec fn remote_action_of(a: LocalAction) -> RemoteActionView {
    RemoteActionView {
        ty: a.ty,
        name: a.name@,
        localized_name: a.localized_name@,
        binding: a.binding@,
    }
}

/// What the server learns of a local interaction profile.
pub open spec fn remote_profile_of(p: InteractionProfile) -> RemoteInteractionProfileView {
    RemoteInteractionProfileView {
        path: p.path@,
        bindings: p.bindings@.map_values(|a: LocalAction| remote_action_of(a)),
    }
}

/// What the server learns of the local configuration: everything but the
/// handles.
pub open spec fn remote_configuration_of(c: LocalConfigurationSnapshot) -> RemoteConfigurationView {
    RemoteConfigurationView {
        version: c.version,
        user_paths: c.user_paths@.map_values(|p: (u64, String)| p.1@),
        interaction_profiles: c.interaction_profiles@.map_values(
            |p: InteractionProfile| remote_profile_of(p),
        ),
        name: c.name@,
    }
}

/// Drops the handles of a local action.
pub fn to_remote_action(a: LocalAction) -> (r: RemoteAction)
    ensures
        r@ == remote_action_of(a),
{
    RemoteAction { ty: a.ty, name: a.name, localized_name: a.localized_name, binding: a.binding }
}

/// Drops the handles of a local interaction profile.
pub fn to_remote_profile(p: InteractionProfile) -> (r: RemoteInteractionProfile)
    ensures
        r@ == remote_profile_of(p),
{
    let ghost given = p.bindings@;
    let InteractionProfile { path, bindings, path_handle: _ } = p;
    let mut remote: Vec<RemoteAction> = Vec::new();
    let mut rest = bindings;
    let mut i: usize = 0;
    let ghost n = given.len();
    proof {
        assert(n == rest.len());
        assert(given.subrange(0, n as int) =~= given);
        assert(given.take(0).map_values(|a: LocalAction| remote_action_of(a)) =~= Seq::<
            RemoteActionView,
        >::empty());
        assert(remote@.map_values(|a: RemoteAction| a@) =~= Seq::<RemoteActionView>::empty());
    }
    while rest.len() > 0
        invariant
            i <= n,
            n == given.len(),
            n <= usize::MAX,
            rest@ == given.subrange(i as int, n as int),
            remote@.map_values(|a: RemoteAction| a@) == given.take(i as int).map_values(
                |a: LocalAction| remote_action_of(a),
            ),
        decreases rest@.len(),
    {
        let ghost before = rest@;
        let a = rest.remove(0);
        proof {
            assert(i < n);
            assert(a == given[i as int]);
            assert(rest@ =~= given.subrange(i + 1, n as int));
        }
        let ghost prev = remote@;
        let ra = to_remote_action(a);
        remote.push(ra);
        proof {
            assert(remote@.map_values(|a: RemoteAction| a@) =~= prev.map_values(|a: RemoteAction| a@).push(
                ra@,
            ));
            assert(given.take(i + 1) =~= given.take(i as int).push(given[i as int]));
            assert(remote@.map_values(|a: RemoteAction| a@) =~= given.take(i + 1).map_values(
                |a: LocalAction| remote_action_of(a),
            ));
        }
        i = i + 1;
    }
    proof {
        assert(given.take(i as int) =~= given);
    }
    RemoteInteractionProfile { path, bindings: remote }
}

/// Drops the handles of the local configuration; this is what is sent to
/// the server whenever the local configuration changes.
pub fn to_remote_configuration(c: LocalConfigurationSnapshot) -> (r: RemoteConfigurationSnapshot)
    ensures
        r@ == remote_configuration_of(c),
{
    let ghost profiles0 = c.interaction_profiles@;
    let ghost paths0 = c.user_paths@;
    let LocalConfigurationSnapshot { version, interaction_profiles, user_paths, name } = c;
    let mut user_path_names: Vec<String> = Vec::new();
    let mut j: usize = 0;
    while j < user_paths.len()
        invariant
            j <= user_paths@.len(),
            user_paths@ == paths0,
            user_path_names@.map_values(|p: String| p@) == paths0.take(j as int).map_values(
                |p: (u64, String)| p.1@,
            ),
        decreases user_paths@.len() - j,
    {
        let ghost prev = user_path_names@;
        let s = user_paths[j].1.clone();
        user_path_names.push(s);
        proof {
            assert(user_path_names@.map_values(|p: String| p@) =~= prev.map_values(|p: String| p@).push(
                s@,
            ));
            assert(paths0.take(j + 1) =~= paths0.take(j as int).push(paths0[j as int]));
            assert(user_path_names@.map_values(|p: String| p@) =~= paths0.take(j + 1).map_values(
                |p: (u64, String)| p.1@,
            ));
        }
        j = j + 1;
    }
    proof {
        assert(paths0.take(j as int) =~= paths0);
    }
    let mut remote: Vec<RemoteInteractionProfile> = Vec::new();
    let mut rest = interaction_profiles;
    let mut i: usize = 0;
    let ghost n = profiles0.len();
    proof {
        assert(n == rest.len());
        assert(profiles0.subrange(0, n as int) =~= profiles0);
        assert(profiles0.take(0).map_values(|p: InteractionProfile| remote_profile_of(p)) =~= Seq::<
            RemoteInteractionProfileView,
        >::empty());
        assert(remote@.map_values(|p: RemoteInteractionProfile| p@) =~= Seq::<
            RemoteInteractionProfileView,
        >::empty());
    }
    while rest.len() > 0
        invariant
            i <= n,
            n == profiles0.len(),
            n <= usize::MAX,
            rest@ == profiles0.subrange(i as int, n as int),
            remote@.map_values(|p: RemoteInteractionProfile| p@) == profiles0.take(i as int).map_values(
                |p: InteractionProfile| remote_profile_of(p),
            ),
        decreases rest@.len(),
    {
        let p = rest.remove(0);
        proof {
            assert(i < n);
            assert(p == profiles0[i as int]);
            assert(rest@ =~= profiles0.subrange(i + 1, n as int));
        }
        let ghost prev = remote@;
        let rp = to_remote_profile(p);
        remote.push(rp);
        proof {
            assert(remote@.map_values(|p: RemoteInteractionProfile| p@) =~= prev.map_values(
                |p: RemoteInteractionProfile| p@,
            ).push(rp@));
            assert(profiles0.take(i + 1) =~= profiles0.take(i as int).push(profiles0[i as int]));
            assert(remote@.map_values(|p: RemoteInteractionProfile| p@) =~= profiles0.take(i + 1).map_values(
                |p: InteractionProfile| remote_profile_of(p),
            ));
        }
        i = i + 1;
    }
    proof {
        assert(profiles0.take(i as int) =~= profiles0);
    }
    RemoteConfigurationSnapshot {
        version,
        user_paths: user_path_names,
        interaction_profiles: remote,
        name,
    }
}

/// The spaces in which a controller on `user_path` can be located, one per
/// pose binding of the profile that has a space for that path, in binding
/// order.
pub open spec fn pose_spaces(bindings: Seq<LocalAction>, user_path: u64) -> Seq<u64>
    decreases bindings.len(),
{
    if bindings.len() == 0 {
        Seq::empty()
    } else {
        let before = pose_spaces(bindings.drop_last(), user_path);
        let b = bindings.last();
        if b.ty == ActionType::Pose && b.spaces is Some && b.spaces->Some_0@.contains_key(user_path) {
            before.push(b.spaces->Some_0@[user_path])
        } else {
            before
        }
    }
}

/// Whether `k` is the first index of a profile with handle `h`.
pub open spec fn first_profile_at(s: Seq<InteractionProfile>, h: u64, k: int) -> bool {
    &&& 0 <= k < s.len()
    &&& s[k].path_handle == h
    &&& forall|m: int| 0 <= m < k ==> #[trigger] s[m].path_handle != h
}

/// Whether `k` is the first index of a user path with handle `h`.
pub open spec fn first_user_path_at(s: Seq<(u64, String)>, h: u64, k: int) -> bool {
    &&& 0 <= k < s.len()
    &&& s[k].0 == h
    &&& forall|m: int| 0 <= m < k ==> #[trigger] s[m].0 != h
}

/// How to report the controller on one user path: its indices (counted
/// from 1) into the local configuration, and the spaces to try, in order,
/// to locate it. The first space that can be located gives the pose.
#[derive(Debug)]
pub struct ControllerPlan {
    pub interaction_profile: u8,
    pub user_path: u8,
    pub spaces: Vec<u64>,
}

/// The plan for the controller on `user_path` with active profile
/// `profile`: nothing when the profile or the path is not in the
/// configuration, when neither index fits in a byte once counted from 1,
/// or when no binding can locate it.
pub open spec fn planned(conf: LocalConfigurationSnapshot, user_path: u64, profile: u64) -> Option<
    (int, int, Seq<u64>),
> {
    if (exists|k: int| first_profile_at(conf.interaction_profiles@, profile, k)) && (exists|k: int|
        first_user_path_at(conf.user_paths@, user_path, k)) {
        let pi = choose|k: int| first_profile_at(conf.interaction_profiles@, profile, k);
        let ui = choose|k: int| first_user_path_at(conf.user_paths@, user_path, k);
        let spaces = pose_spaces(conf.interaction_profiles@[pi].bindings@, user_path);
        if spaces.len() > 0 && pi + 1 <= 255 && ui + 1 <= 255 {
            Some((pi + 1, ui + 1, spaces))
        } else {
            None
        }
    } else {
        None
    }
}

pub open spec fn plan_view(p: Option<ControllerPlan>) -> Option<(int, int, Seq<u64>)> {
    match p {
        Some(p) => Some((p.interaction_profile as int, p.user_path as int, p.spaces@)),
        None => None,
    }
}

fn find_profile(s: &Vec<InteractionProfile>, h: u64) -> (r: Option<usize>)
    ensures
        r matches Some(k) ==> first_profile_at(s@, h, k as int),
        r is None ==> !exists|k: int| first_profile_at(s@, h, k),
{
    let mut k: usize = 0;
    while k < s.len()
        invariant
            k <= s@.len(),
            forall|m: int| 0 <= m < k ==> #[trigger] s@[m].path_handle != h,
        decreases s@.len() - k,
    {
        if s[k].path_handle == h {
            return Some(k);
        }
        k = k + 1;
    }
    proof {
        assert forall|j: int| !first_profile_at(s@, h, j) by {
            if 0 <= j < s@.len() {
                assert(s@[j].path_handle != h);
            }
        }
    }
    None
}

fn find_user_path(s: &Vec<(u64, String)>, h: u64) -> (r: Option<usize>)
    ensures
        r matches Some(k) ==> first_user_path_at(s@, h, k as int),
        r is None ==> !exists|k: int| first_user_path_at(s@, h, k),
{
    let mut k: usize = 0;
    while k < s.len()
        invariant
            k <= s@.len(),
            forall|m: int| 0 <= m < k ==> #[trigger] s@[m].0 != h,
        decreases s@.len() - k,
    {
        if s[k].0 == h {
            return Some(k);
        }
        k = k + 1;
    }
    proof {
        assert forall|j: int| !first_user_path_at(s@, h, j) by {
            if 0 <= j < s@.len() {
                assert(s@[j].0 != h);
            }
        }
    }
    None
}

fn collect_pose_spaces(bindings: &Vec<LocalAction>, user_path: u64) -> (r: Vec<u64>)
    ensures
        r@ == pose_spaces(bindings@, user_path),
{
    let mut spaces: Vec<u64> = Vec::new();
    let mut b: usize = 0;
    while b < bindings.len()
        invariant
            b <= bindings@.len(),
            spaces@ == pose_spaces(bindings@.take(b as int), user_path),
        decreases bindings@.len() - b,
    {
        proof {
            assert(bindings@.take(b + 1).drop_last() =~= bindings@.take(b as int));
        }
        let binding = &bindings[b];
        if binding.ty == ActionType::Pose {
            match &binding.spaces {
                Some(map) => match map.get(&user_path) {
                    Some(space) => {
                        spaces.push(*space);
                    },
                    None => {},
                },
                None => {},
            }
        }
        b = b + 1;
    }
    proof {
        assert(bindings@.take(b as int) =~= bindings@);
    }
    spaces
}

/// Plans the report of the controller on `user_path`, whose active
/// interaction profile is `profile`.
pub fn plan_controller(conf: &LocalConfigurationSnapshot, user_path: u64, profile: u64) -> (r: Option<
    ControllerPlan,
>)
    ensures
        plan_view(r) == planned(*conf, user_path, profile),
{
    let pi = match find_profile(&conf.interaction_profiles, profile) {
        Some(pi) => pi,
        None => return None,
    };
    let ui = match find_user_path(&conf.user_paths, user_path) {
        Some(ui) => ui,
        None => return None,
    };
    proof {
        let cp = choose|k: int| first_profile_at(conf.interaction_profiles@, profile, k);
        let cu = choose|k: int| first_user_path_at(conf.user_paths@, user_path, k);
        assert(first_profile_at(conf.interaction_profiles@, profile, cp));
        assert(first_user_path_at(conf.user_paths@, user_path, cu));
        if cp < pi {
            assert(conf.interaction_profiles@[cp].path_handle != profile);
        }
        if pi < cp {
            assert(conf.interaction_profiles@[pi as int].path_handle != profile);
        }
        if cu < ui {
            assert(conf.user_paths@[cu].0 != user_path);
        }
        if ui < cu {
            assert(conf.user_paths@[ui as int].0 != user_path);
        }
    }
    let spaces = collect_pose_spaces(&conf.interaction_profiles[pi].bindings, user_path);
    if spaces.len() == 0 || pi >= 255 || ui >= 255 {
        return None;
    }
    Some(ControllerPlan { interaction_profile: (pi + 1) as u8, user_path: (ui + 1) as u8, spaces })
}

} // verus!
