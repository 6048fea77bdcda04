//! Client-side merging of the remote configurations and remote states that
//! arrive from the server into one snapshot per remote client.
//!
//! A state is only usable together with the configuration version it was
//! produced for (its `required_configuration`), and the two arrive on
//! different channels. The merged snapshot therefore keeps, for each client,
//! the newest pair that belongs together.
use crate::maps::keys_of;
use crate::model::{
    ClientId, ConfigurationSnapshotSet, RemoteClientSnapshot, RemoteClientView,
    RemoteConfigurationSnapshot, RemoteConfigurationView, RemoteSnapshot, RemoteStateSnapshotSet,
    StateSnapshot, StateSnapshotView,
};
use std::collections::HashMap;
use vstd::prelude::*;

verus! {

broadcast use vstd::std_specs::hash::group_hash_axioms;

/// Whether a state was produced for the given configuration.
pub open spec fn fits(cfg: RemoteConfigurationView, st: StateSnapshotView) -> bool {
    st.required_configuration == cfg.version
}

/// A merged client whose state was produced for its configuration.
pub open spec fn consistent(c: RemoteClientView) -> bool {
    fits(c.configuration, c.state)
}

/// What the merged entry of one client becomes, given its previous merged
/// entry `prev`, its latest configuration `cfg` and its latest state `st`:
/// - a latest state that fits the latest configuration replaces both;
/// - otherwise a client that was never merged stays out;
/// - otherwise, when the configuration is newer than the merged one, either
///   the merged state fits the new configuration (the configuration moves
///   forward) or the new state fits the merged configuration (the state
///   moves forward);
/// - otherwise the previous entry stays.
pub open spec fn merge_client(
    prev: Option<RemoteClientView>,
    cfg: RemoteConfigurationView,
    st: Option<StateSnapshotView>,
) -> Option<RemoteClientView> {
    if st is Some && fits(cfg, st->Some_0) {
        Some(RemoteClientView { configuration: cfg, state: st->Some_0 })
    } else {
        match prev {
            None => None,
            Some(c) => match st {
                None => Some(c),
                Some(s) => if cfg.version > c.configuration.version && fits(cfg, c.state) {
                    Some(RemoteClientView { configuration: cfg, state: c.state })
                } else if cfg.version > c.configuration.version && fits(c.configuration, s) {
                    Some(RemoteClientView { configuration: c.configuration, state: s })
                } else {
                    Some(c)
                },
            },
        }
    }
}

/// The merged snapshot: one entry for each client that has a configuration
/// and for which [`merge_client`] yields an entry.
pub open spec fn merged_clients(
    prev: Map<ClientId, RemoteClientView>,
    configs: Map<ClientId, RemoteConfigurationView>,
    states: Map<ClientId, StateSnapshotView>,
) -> Map<ClientId, RemoteClientView> {
    Map::new(
        |id: ClientId|
            configs.contains_key(id) && merge_client(prev.get(id), configs[id], states.get(id)) is Some,
        |id: ClientId| merge_client(prev.get(id), configs[id], states.get(id))->Some_0,
    )
}

pub open spec fn client_view_opt(c: Option<&RemoteClientSnapshot>) -> Option<RemoteClientView> {
    match c {
        Some(c) => Some(c@),
        None => None,
    }
}

pub open spec fn owned_client_view_opt(c: Option<RemoteClientSnapshot>) -> Option<RemoteClientView> {
    match c {
        Some(c) => Some(c@),
        None => None,
    }
}

pub open spec fn state_view_opt(s: Option<&StateSnapshot>) -> Option<StateSnapshotView> {
    match s {
        Some(s) => Some(s@),
        None => None,
    }
}

/// Computes [`merge_client`] for one client, cloning what it keeps.
pub fn merge_client_entry(
    prev: Option<&RemoteClientSnapshot>,
    cfg: &RemoteConfigurationSnapshot,
    st: Option<&StateSnapshot>,
) -> (r: Option<RemoteClientSnapshot>)
    ensures
        owned_client_view_opt(r) == merge_client(client_view_opt(prev), cfg@, state_view_opt(st)),
{
    if let Some(s) = st {
        if s.required_configuration == cfg.version {
            return Some(RemoteClientSnapshot { configuration: cfg.clone(), state: s.clone() });
        }
    }
    match prev {
        None => None,
        Some(c) => match st {
            None => Some(c.clone()),
            Some(s) => {
                if cfg.version > c.configuration.version
                    && c.state.required_configuration == cfg.version {
                    Some(RemoteClientSnapshot { configuration: cfg.clone(), state: c.state.clone() })
                } else if cfg.version > c.configuration.version
                    && s.required_configuration == c.configuration.version {
                    Some(RemoteClientSnapshot { configuration: c.configuration.clone(), state: s.clone() })
                } else {
                    Some(c.clone())
                }
            },
        },
    }
}

impl RemoteSnapshot {
    /// Brings the merged snapshot up to date with the latest remote states
    /// and configurations: clients without a configuration are dropped, and
    /// each remaining client is merged by [`merge_client`].
    pub fn update_merged(&mut self, state: &RemoteStateSnapshotSet, config: &ConfigurationSnapshotSet)
        ensures
            final(self)@ == merged_clients(old(self)@, config@, state@.clients),
            forall|id: ClientId|
                old(self)@.contains_key(id) && #[trigger] config@.contains_key(id)
                    ==> final(self)@.contains_key(id),
            forall|id: ClientId| #[trigger] final(self)@.contains_key(id) ==> config@.contains_key(id),
    {
        let ghost target = merged_clients(self@, config@, state@.clients);
        let ids = keys_of(&config.clients);
        let mut out: HashMap<ClientId, RemoteClientSnapshot> = HashMap::new();
        let mut i: usize = 0;
        while i < ids.len()
            invariant
                i <= ids.len(),
                ids@.to_set() == config.clients@.dom(),
                ids@.no_duplicates(),
                target == merged_clients(self@, config@, state@.clients),
                forall|id: ClientId| #[trigger]
                    out@.contains_key(id) <==> (ids@.take(i as int).contains(id)
                        && target.contains_key(id)),
                forall|id: ClientId| #[trigger]
                    out@.contains_key(id) ==> out@[id]@ == target[id],
            decreases ids.len() - i,
        {
            let id = ids[i];
            assert(ids@.to_set().contains(id));
            let cfg = config.clients.get(&id).unwrap();
            let st = state.clients.get(&id);
            let prev = self.clients.get(&id);
            proof {
                assert(config@[id] == cfg@);
                assert(state_view_opt(st) == state@.clients.get(id));
                assert(client_view_opt(prev) == self@.get(id));
            }
            let entry = merge_client_entry(prev, cfg, st);
            match entry {
                Some(e) => {
                    out.insert(id, e);
                },
                None => {},
            }
            proof {
                broadcast use vstd::seq_lib::group_seq_properties;
                assert(ids@.take(i + 1) =~= ids@.take(i as int).push(id));
            }
            i = i + 1;
        }
        proof {
            assert(ids@.take(ids@.len() as int) =~= ids@);
            assert forall|id: ClientId| #[trigger] target.contains_key(id) implies ids@.contains(id) by {
                assert(config.clients@.dom().contains(id));
                assert(ids@.to_set().contains(id));
            }
            assert(out@.map_values(|c: RemoteClientSnapshot| c@) =~= target);
        }
        self.clients = out;
        proof {
            assert forall|id: ClientId|
                old(self)@.contains_key(id) && #[trigger] config@.contains_key(id)
                    implies self@.contains_key(id) by {
                merged_client_stays(old(self)@, config@, state@.clients, id);
            }
        }
    }
}

/// Merging never pairs a state with a configuration it was not produced
/// for: if every previously merged client is consistent, so is every client
/// of the new merged snapshot.
pub proof fn merge_keeps_consistency(
    prev: Map<ClientId, RemoteClientView>,
    configs: Map<ClientId, RemoteConfigurationView>,
    states: Map<ClientId, StateSnapshotView>,
)
    requires
        forall|id: ClientId| #[trigger] prev.contains_key(id) ==> consistent(prev[id]),
    ensures
        forall|id: ClientId| #[trigger]
            merged_clients(prev, configs, states).contains_key(id) ==> consistent(
                merged_clients(prev, configs, states)[id],
            ),
{
}

/// Only clients with a configuration appear in the merged snapshot, and a
/// client whose latest state fits its latest configuration appears with
/// exactly those.
pub proof fn merge_follows_configurations(
    prev: Map<ClientId, RemoteClientView>,
    configs: Map<ClientId, RemoteConfigurationView>,
    states: Map<ClientId, StateSnapshotView>,
    id: ClientId,
)
    ensures
        merged_clients(prev, configs, states).contains_key(id) ==> configs.contains_key(id),
        configs.contains_key(id) && states.contains_key(id) && fits(configs[id], states[id])
            ==> merged_clients(prev, configs, states).contains_key(id)
            && merged_clients(prev, configs, states)[id] == (RemoteClientView {
                configuration: configs[id],
                state: states[id],
            }),
{
}

/// Merging twice with the same inputs changes nothing more.
pub proof fn merge_is_idempotent(
    prev: Map<ClientId, RemoteClientView>,
    configs: Map<ClientId, RemoteConfigurationView>,
    states: Map<ClientId, StateSnapshotView>,
)
    ensures
        merged_clients(merged_clients(prev, configs, states), configs, states) == merged_clients(
            prev,
            configs,
            states,
        ),
{
    let once = merged_clients(prev, configs, states);
    let twice = merged_clients(once, configs, states);
    assert forall|id: ClientId| #[trigger] twice.contains_key(id) <==> once.contains_key(id) by {}
    assert forall|id: ClientId| #[trigger] twice.contains_key(id) implies twice[id] == once[id] by {}
    assert(twice =~= once);
}

/// A client that was merged before and still has a configuration stays in
/// the merged snapshot, whatever state arrives; its entry is made of its
/// latest or its previously merged configuration and state. When the latest
/// state fits neither configuration and the configuration did not move
/// forward, the previous entry is kept as it was.
pub proof fn merged_client_stays(
    prev: Map<ClientId, RemoteClientView>,
    configs: Map<ClientId, RemoteConfigurationView>,
    states: Map<ClientId, StateSnapshotView>,
    id: ClientId,
)
    requires
        prev.contains_key(id),
        configs.contains_key(id),
    ensures
        merged_clients(prev, configs, states).contains_key(id),
        ({
            let m = merged_clients(prev, configs, states)[id];
            &&& m.configuration == configs[id] || m.configuration == prev[id].configuration
            &&& (states.contains_key(id) && m.state == states[id]) || m.state == prev[id].state
        }),
        states.contains_key(id) && states[id].required_configuration != configs[id].version
            && states[id].required_configuration != prev[id].configuration.version
            && prev[id].state.required_configuration != configs[id].version
            ==> merged_clients(prev, configs, states)[id] == prev[id],
{
}

} // verus!
