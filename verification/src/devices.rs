//! The list of remote devices that the application renders: the headset of
//! every merged remote client, followed by its controllers.
use crate::maps::keys_of;
use crate::model::{
    ClientId, Controller, ReadRemoteDevicesOutput, RemoteClientSnapshot, RemoteClientView,
    RemoteConfigurationView, RemoteDevice, RemoteDeviceView, RemoteSnapshot,
};
use vstd::prelude::*;
use vstd::string::StringExecFns;

verus! {

broadcast use vstd::std_specs::hash::group_hash_axioms;

/// Device ids of client `c` are `c * 100 + i`, for `i` counting from 1.
pub open spec fn device_id(client: ClientId, i: int) -> int {
    client * 100 + i
}

/// The headset of a client: always listed first, with index 1.
pub open spec fn head_device(client: ClientId, c: RemoteClientView) -> RemoteDeviceView {
    RemoteDeviceView {
        id: device_id(client, 1) as u32,
        pos: c.state.view.position,
        rot: c.state.view.orientation,
        user_path: "/user/head"@,
        interaction_profile: "generic_hmd"@,
    }
}

/// Whether a controller's indices (counted from 1) name an interaction
/// profile and a user path of the configuration.
pub open spec fn controller_resolves(cfg: RemoteConfigurationView, c: Controller) -> bool {
    &&& c.interaction_profile as int <= cfg.interaction_profiles.len()
    &&& c.user_path as int <= cfg.user_paths.len()
}

/// The device of a controller that resolves, listed with index `i`.
pub open spec fn controller_device(
    client: ClientId,
    cfg: RemoteConfigurationView,
    c: Controller,
    i: int,
) -> RemoteDeviceView {
    RemoteDeviceView {
        id: device_id(client, i) as u32,
        pos: c.pose.position,
        rot: c.pose.orientation,
        user_path: cfg.user_paths[c.user_path as int - 1],
        interaction_profile: cfg.interaction_profiles[c.interaction_profile as int - 1].path,
    }
}

/// The devices of the controllers that resolve, in order, numbered after
/// the headset.
pub open spec fn controller_devices(
    client: ClientId,
    cfg: RemoteConfigurationView,
    cs: Seq<Controller>,
) -> Seq<RemoteDeviceView>
    decreases cs.len(),
{
    if cs.len() == 0 {
        Seq::empty()
    } else {
        let before = controller_devices(client, cfg, cs.drop_last());
        if controller_resolves(cfg, cs.last()) {
            before.push(controller_device(client, cfg, cs.last(), before.len() as int + 2))
        } else {
            before
        }
    }
}

/// All devices of one client.
pub open spec fn client_devices(client: ClientId, c: RemoteClientView) -> Seq<RemoteDeviceView> {
    seq![head_device(client, c)] + controller_devices(client, c.configuration, c.state.controllers)
}

/// The devices of the clients of `m`, client after client in `order`.
pub open spec fn devices_in_order(m: Map<ClientId, RemoteClientView>, order: Seq<ClientId>) -> Seq<
    RemoteDeviceView,
>
    decreases order.len(),
{
    if order.len() == 0 {
        Seq::empty()
    } else {
        devices_in_order(m, order.drop_last()) + client_devices(order.last(), m[order.last()])
    }
}

/// A client whose devices can be listed: the interaction profile of each
/// controller is counted from 1, and so is its user path when the profile
/// resolves, and the device ids fit in a `u32`.
pub open spec fn client_listable(client: ClientId, c: RemoteClientView) -> bool {
    &&& forall|j: int|
        0 <= j < c.state.controllers.len() ==> #[trigger] c.state.controllers[j].interaction_profile
            >= 1 && (c.state.controllers[j].interaction_profile as int
            <= c.configuration.interaction_profiles.len() ==> c.state.controllers[j].user_path >= 1)
    &&& device_id(
        client,
        1 + controller_devices(client, c.configuration, c.state.controllers).len() as int,
    ) <= u32::MAX
}

pub open spec fn views_of(ds: Seq<RemoteDevice>) -> Seq<RemoteDeviceView> {
    ds.map_values(|d: RemoteDevice| d@)
}

proof fn lemma_controller_devices_prefix(
    client: ClientId,
    cfg: RemoteConfigurationView,
    cs: Seq<Controller>,
    k: int,
)
    requires
        0 <= k <= cs.len(),
    ensures
        controller_devices(client, cfg, cs.take(k)).len() <= controller_devices(client, cfg, cs).len(),
    decreases cs.len() - k,
{
    if k < cs.len() {
        assert(cs.take(k + 1).drop_last() =~= cs.take(k));
        lemma_controller_devices_prefix(client, cfg, cs, k + 1);
    } else {
        assert(cs.take(k) =~= cs);
    }
}

/// Appends the devices of one client to `out`.
pub fn push_client_devices(out: &mut Vec<RemoteDevice>, client: ClientId, c: &RemoteClientSnapshot)
    requires
        client_listable(client, c@),
    ensures
        views_of(final(out)@) == views_of(old(out)@) + client_devices(client, c@),
        final(out)@.len() > old(out)@.len(),
        final(out)@[old(out)@.len() as int].id as int == client * 100 + 1,
        final(out)@[old(out)@.len() as int].pos == c.state.view.position,
        final(out)@[old(out)@.len() as int].rot == c.state.view.orientation,
        final(out)@[old(out)@.len() as int].user_path@ == "/user/head"@,
{
    let ghost cv = c@;
    let ghost start = views_of(out@);
    let base: u32 = client * 100;
    out.push(
        RemoteDevice {
            id: base + 1,
            pos: c.state.view.position,
            rot: c.state.view.orientation,
            user_path: String::from_str("/user/head"),
            interaction_profile: String::from_str("generic_hmd"),
        },
    );
    proof {
        assert(views_of(out@) =~= start + seq![head_device(client, cv)]);
    }
    let mut i: u32 = 1;
    let mut k: usize = 0;
    while k < c.state.controllers.len()
        invariant
            cv == c@,
            client_listable(client, cv),
            base == client * 100,
            k <= cv.state.controllers.len(),
            i == 1 + controller_devices(client, cv.configuration, cv.state.controllers.take(k as int)).len(),
            views_of(out@) == start + seq![head_device(client, cv)] + controller_devices(
                client,
                cv.configuration,
                cv.state.controllers.take(k as int),
            ),
        decreases cv.state.controllers.len() - k,
    {
        let ghost before = controller_devices(client, cv.configuration, cv.state.controllers.take(k as int));
        let ghost taken = cv.state.controllers.take(k + 1);
        proof {
            assert(taken.drop_last() =~= cv.state.controllers.take(k as int));
            assert(taken.last() == cv.state.controllers[k as int]);
            lemma_controller_devices_prefix(client, cv.configuration, cv.state.controllers, k + 1);
        }
        let device = c.state.controllers[k];
        assert(device.interaction_profile >= 1);
        let profile_index = (device.interaction_profile - 1) as usize;
        let resolves = if profile_index < c.configuration.interaction_profiles.len() {
            assert(device.user_path >= 1);
            let path_index = (device.user_path - 1) as usize;
            path_index < c.configuration.user_paths.len()
        } else {
            false
        };
        if resolves {
            let path_index = (device.user_path - 1) as usize;
            let profile = &c.configuration.interaction_profiles[profile_index];
            let user_path = &c.configuration.user_paths[path_index];
            i = i + 1;
            let ghost prev_out = out@;
            out.push(
                RemoteDevice {
                    id: base + i,
                    pos: device.pose.position,
                    rot: device.pose.orientation,
                    user_path: user_path.clone(),
                    interaction_profile: profile.path.clone(),
                },
            );
            proof {
                assert(controller_resolves(cv.configuration, taken.last()));
                assert(controller_devices(client, cv.configuration, taken) == before.push(
                    controller_device(client, cv.configuration, taken.last(), before.len() as int + 2),
                ));
                assert(cv.configuration.user_paths[path_index as int] == user_path@);
                assert(cv.configuration.interaction_profiles[profile_index as int].path == profile.path@);
                assert(out@.last()@ == controller_device(client, cv.configuration, taken.last(), before.len() as int + 2));
                assert(views_of(out@) =~= views_of(prev_out).push(out@.last()@));
                assert(views_of(out@) =~= start + seq![head_device(client, cv)] + controller_devices(
                    client,
                    cv.configuration,
                    taken,
                ));
            }
        } else {
            proof {
                assert(!controller_resolves(cv.configuration, taken.last()));
            }
        }
        k = k + 1;
    }
    proof {
        assert(cv.state.controllers.take(k as int) =~= cv.state.controllers);
        assert(views_of(out@) =~= start + client_devices(client, cv));
        head_device_is_the_view(client, cv);
        let n = old(out)@.len() as int;
        assert(views_of(out@)[n] == out@[n]@);
        assert(views_of(out@)[n] == client_devices(client, cv)[0]);
    }
}

/// The devices of all merged remote clients, client after client in the
/// order in which the snapshot hands its clients out.
pub fn read_remote_devices(snapshot: &RemoteSnapshot) -> (r: ReadRemoteDevicesOutput)
    requires
        forall|id: ClientId| #[trigger]
            snapshot@.contains_key(id) ==> client_listable(id, snapshot@[id]),
    ensures
        exists|order: Seq<ClientId>|
            {
                &&& order.to_set() == snapshot@.dom()
                &&& order.no_duplicates()
                &&& views_of(r.devices@) == devices_in_order(snapshot@, order)
            },
        forall|id: ClientId| #[trigger]
            snapshot@.contains_key(id) ==> exists|j: int|
                0 <= j < r.devices@.len() && r.devices@[j].id as int == id * 100 + 1
                    && r.devices@[j].pos == snapshot@[id].state.view.position
                    && r.devices@[j].rot == snapshot@[id].state.view.orientation
                    && r.devices@[j].user_path@ == "/user/head"@,
{
    let ids = keys_of(&snapshot.clients);
    let mut devices: Vec<RemoteDevice> = Vec::new();
    let mut k: usize = 0;
    while k < ids.len()
        invariant
            k <= ids.len(),
            ids@.to_set() == snapshot@.dom(),
            forall|id: ClientId| #[trigger]
                snapshot@.contains_key(id) ==> client_listable(id, snapshot@[id]),
            views_of(devices@) == devices_in_order(snapshot@, ids@.take(k as int)),
        decreases ids.len() - k,
    {
        let id = ids[k];
        proof {
            assert(ids@.to_set().contains(id));
        }
        let client = snapshot.clients.get(&id).unwrap();
        proof {
            assert(snapshot@[id] == client@);
        }
        push_client_devices(&mut devices, id, client);
        proof {
            assert(ids@.take(k + 1).drop_last() =~= ids@.take(k as int));
        }
        k = k + 1;
    }
    proof {
        assert(ids@.take(k as int) =~= ids@);
        assert forall|id: ClientId| #[trigger] snapshot@.contains_key(id) implies exists|j: int|
            0 <= j < devices@.len() && devices@[j].id as int == id * 100 + 1
                && devices@[j].pos == snapshot@[id].state.view.position
                && devices@[j].rot == snapshot@[id].state.view.orientation
                && devices@[j].user_path@ == "/user/head"@ by {
            assert(ids@.to_set().contains(id));
            lemma_head_listed(snapshot@, ids@, id);
            let j = choose|j: int|
                0 <= j < devices_in_order(snapshot@, ids@).len() && devices_in_order(snapshot@, ids@)[j]
                    == head_device(id, snapshot@[id]);
            assert(views_of(devices@)[j] == devices@[j]@);
            head_device_is_the_view(id, snapshot@[id]);
        }
    }
    let r = ReadRemoteDevicesOutput { devices };
    proof {
        assert(r.devices@ == devices@);
    }
    r
}

proof fn lemma_head_listed(m: Map<ClientId, RemoteClientView>, order: Seq<ClientId>, id: ClientId)
    requires
        order.contains(id),
    ensures
        exists|j: int|
            0 <= j < devices_in_order(m, order).len() && devices_in_order(m, order)[j]
                == head_device(id, m[id]),
    decreases order.len(),
{
    let before = devices_in_order(m, order.drop_last());
    if order.last() == id {
        let j = before.len() as int;
        assert(devices_in_order(m, order)[j] == client_devices(id, m[id])[0]);
    } else {
        let i = choose|i: int| 0 <= i < order.len() && order[i] == id;
        assert(order.drop_last()[i] == id);
        lemma_head_listed(m, order.drop_last(), id);
        let j = choose|j: int| 0 <= j < before.len() && before[j] == head_device(id, m[id]);
        assert(devices_in_order(m, order)[j] == before[j]);
    }
}

/// The first device of a client is its headset, carrying the client's view
/// pose (position and rotation) under id `client * 100 + 1`; each further
/// device carries the pose of one of its controllers.
pub proof fn head_device_is_the_view(client: ClientId, c: RemoteClientView)
    requires
        client * 100 + 1 <= u32::MAX,
    ensures
        client_devices(client, c).len() >= 1,
        client_devices(client, c)[0].id as int == client * 100 + 1,
        client_devices(client, c)[0].pos == c.state.view.position,
        client_devices(client, c)[0].rot == c.state.view.orientation,
        client_devices(client, c)[0].user_path == "/user/head"@,
        client_devices(client, c)[0].interaction_profile == "generic_hmd"@,
        forall|k: int|
            1 <= k < client_devices(client, c).len() ==> exists|j: int|
                0 <= j < c.state.controllers.len() && (#[trigger] client_devices(client, c)[k]).pos
                    == c.state.controllers[j].pose.position && client_devices(client, c)[k].rot
                    == c.state.controllers[j].pose.orientation,
{
    lemma_controller_devices_poses(client, c.configuration, c.state.controllers);
    assert forall|k: int| 1 <= k < client_devices(client, c).len() implies exists|j: int|
        0 <= j < c.state.controllers.len() && (#[trigger] client_devices(client, c)[k]).pos
            == c.state.controllers[j].pose.position && client_devices(client, c)[k].rot
            == c.state.controllers[j].pose.orientation by {
        assert(client_devices(client, c)[k] == controller_devices(client, c.configuration, c.state.controllers)[k - 1]);
    }
}

proof fn lemma_controller_devices_poses(client: ClientId, cfg: RemoteConfigurationView, cs: Seq<Controller>)
    ensures
        forall|k: int|
            0 <= k < controller_devices(client, cfg, cs).len() ==> exists|j: int|
                0 <= j < cs.len() && (#[trigger] controller_devices(client, cfg, cs)[k]).pos
                    == cs[j].pose.position && controller_devices(client, cfg, cs)[k].rot
                    == cs[j].pose.orientation,
    decreases cs.len(),
{
    if cs.len() > 0 {
        let before = controller_devices(client, cfg, cs.drop_last());
        lemma_controller_devices_poses(client, cfg, cs.drop_last());
        assert forall|k: int| 0 <= k < controller_devices(client, cfg, cs).len() implies exists|j: int|
            0 <= j < cs.len() && (#[trigger] controller_devices(client, cfg, cs)[k]).pos
                == cs[j].pose.position && controller_devices(client, cfg, cs)[k].rot
                == cs[j].pose.orientation by {
            if k < before.len() {
                let j = choose|j: int|
                    0 <= j < cs.drop_last().len() && (#[trigger] before[k]).pos == cs.drop_last()[j].pose.position
                        && before[k].rot == cs.drop_last()[j].pose.orientation;
                assert(cs[j] == cs.drop_last()[j]);
                assert(controller_devices(client, cfg, cs)[k] == before[k]);
            } else {
                assert(cs[cs.len() - 1] == cs.last());
            }
        }
    }
}

} // verus!
