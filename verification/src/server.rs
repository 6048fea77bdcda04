//! The server's record of connected clients: the latest state snapshot and
//! the latest configuration of every client, and how each change reported by
//! a connection updates them.
use crate::model::{
    empty_configuration_view, empty_state_view, ClientId, ConfigurationSnapshotSet, DatagramDown,
    RemoteConfigurationSnapshot, RemoteConfigurationView, RemoteStateSnapshotSet, StateSnapshot,
    StateSnapshotView,
};
use std::collections::HashMap;
use vstd::prelude::*;

verus! {

broadcast use vstd::std_specs::hash::group_hash_axioms;

/// A change that a client connection asks the server to record.
#[derive(Debug)]
pub enum ServerChange {
    AddClient(ClientId),
    SetSnapshot(ClientId, StateSnapshot),
    SetConfiguration(ClientId, RemoteConfigurationSnapshot),
    RemoveClient(ClientId),
}

/// Mathematical model of a [`ServerChange`].
pub enum ServerChangeView {
    AddClient(ClientId),
    SetSnapshot(ClientId, StateSnapshotView),
    SetConfiguration(ClientId, RemoteConfigurationView),
    RemoveClient(ClientId),
}

impl View for ServerChange {
    type V = ServerChangeView;

    open spec fn view(&self) -> ServerChangeView {
        match self {
            ServerChange::AddClient(id) => ServerChangeView::AddClient(*id),
            ServerChange::SetSnapshot(id, s) => ServerChangeView::SetSnapshot(*id, s@),
            ServerChange::SetConfiguration(id, c) => ServerChangeView::SetConfiguration(*id, c@),
            ServerChange::RemoveClient(id) => ServerChangeView::RemoveClient(*id),
        }
    }
}

/// The latest snapshots and configurations of all clients.
#[derive(Debug)]
pub struct ServerState {
    pub latest_snapshots: RemoteStateSnapshotSet,
    pub latest_configurations: ConfigurationSnapshotSet,
}

/// Mathematical model of a [`ServerState`].
pub struct ServerStateView {
    pub order: int,
    pub states: Map<ClientId, StateSnapshotView>,
    pub configs: Map<ClientId, RemoteConfigurationView>,
}

impl View for ServerState {
    type V = ServerStateView;

    open spec fn view(&self) -> ServerStateView {
        ServerStateView {
            order: self.latest_snapshots.order as int,
            states: self.latest_snapshots@.clients,
            configs: self.latest_configurations@,
        }
    }
}

/// Whether recording `c` advances the snapshot order.
pub open spec fn advances_order(s: ServerStateView, c: ServerChangeView) -> bool {
    match c {
        ServerChangeView::AddClient(_) => true,
        ServerChangeView::SetSnapshot(id, _) => s.states.contains_key(id),
        ServerChangeView::SetConfiguration(_, _) => false,
        ServerChangeView::RemoveClient(_) => true,
    }
}

/// The state after recording `c`:
/// - a new client starts with an empty snapshot and an empty configuration;
/// - a snapshot or a configuration is recorded only for a known client;
/// - a removed client loses both;
/// - the order advances on every change to the set of snapshots.
pub open spec fn server_step(s: ServerStateView, c: ServerChangeView) -> ServerStateView {
    let order = if advances_order(s, c) { s.order + 1 } else { s.order };
    match c {
        ServerChangeView::AddClient(id) => ServerStateView {
            order,
            states: s.states.insert(id, empty_state_view()),
            configs: s.configs.insert(id, empty_configuration_view()),
        },
        ServerChangeView::SetSnapshot(id, snap) => ServerStateView {
            order,
            states: if s.states.contains_key(id) { s.states.insert(id, snap) } else { s.states },
            configs: s.configs,
        },
        ServerChangeView::SetConfiguration(id, conf) => ServerStateView {
            order,
            states: s.states,
            configs: if s.configs.contains_key(id) { s.configs.insert(id, conf) } else { s.configs },
        },
        ServerChangeView::RemoveClient(id) => ServerStateView {
            order,
            states: s.states.remove(id),
            configs: s.configs.remove(id),
        },
    }
}

/// Whether watchers of the configurations are told about the change: always
/// for added and removed clients, and for a configuration that was recorded.
pub open spec fn notifies_configuration(s: ServerStateView, c: ServerChangeView) -> bool {
    match c {
        ServerChangeView::AddClient(_) => true,
        ServerChangeView::SetSnapshot(_, _) => false,
        ServerChangeView::SetConfiguration(id, _) => s.configs.contains_key(id),
        ServerChangeView::RemoveClient(_) => true,
    }
}

impl ServerState {
    /// A server with no clients.
    pub fn new() -> (r: ServerState)
        ensures
            r@.order == 0,
            r@.states == Map::<ClientId, StateSnapshotView>::empty(),
            r@.configs == Map::<ClientId, RemoteConfigurationView>::empty(),
    {
        let r = ServerState {
            latest_snapshots: RemoteStateSnapshotSet { order: 0, clients: HashMap::new() },
            latest_configurations: ConfigurationSnapshotSet { clients: HashMap::new() },
        };
        proof {
            assert(r@.states =~= Map::<ClientId, StateSnapshotView>::empty());
            assert(r@.configs =~= Map::<ClientId, RemoteConfigurationView>::empty());
        }
        r
    }

    /// Records one change; returns whether watchers of the configurations
    /// are to be notified.
    pub fn apply_change(&mut self, change: ServerChange) -> (notify: bool)
        requires
            advances_order(old(self)@, change@) ==> old(self)@.order < usize::MAX,
        ensures
            final(self)@ == server_step(old(self)@, change@),
            notify == notifies_configuration(old(self)@, change@),
    {
        let ghost s0 = self@;
        let ghost c0 = change@;
        match change {
            ServerChange::AddClient(id) => {
                self.latest_snapshots.order = self.latest_snapshots.order + 1;
                self.latest_snapshots.clients.insert(id, StateSnapshot::default());
                self.latest_configurations.clients.insert(id, RemoteConfigurationSnapshot::default());
                proof {
                    assert(self@.states =~= server_step(s0, c0).states);
                    assert(self@.configs =~= server_step(s0, c0).configs);
                }
                true
            },
            ServerChange::SetSnapshot(id, snapshot) => {
                if self.latest_snapshots.clients.contains_key(&id) {
                    self.latest_snapshots.order = self.latest_snapshots.order + 1;
                    self.latest_snapshots.clients.insert(id, snapshot);
                    proof {
                        assert(self@.states =~= server_step(s0, c0).states);
                    }
                }
                false
            },
            ServerChange::SetConfiguration(id, config) => {
                if self.latest_configurations.clients.contains_key(&id) {
                    self.latest_configurations.clients.insert(id, config);
                    proof {
                        assert(self@.configs =~= server_step(s0, c0).configs);
                    }
                    true
                } else {
                    false
                }
            },
            ServerChange::RemoveClient(id) => {
                self.latest_snapshots.order = self.latest_snapshots.order + 1;
                self.latest_snapshots.clients.remove(&id);
                self.latest_configurations.clients.remove(&id);
                proof {
                    assert(self@.states =~= server_step(s0, c0).states);
                    assert(self@.configs =~= server_step(s0, c0).configs);
                }
                true
            },
        }
    }

    /// The datagram that answers a snapshot from client `id`: the latest
    /// snapshots of every other client.
    pub fn snapshots_for_client(&self, id: ClientId) -> (d: DatagramDown)
        ensures
            d matches DatagramDown::State(set) && set@.order == self.latest_snapshots.order
                && set@.clients == self@.states.remove(id),
    {
        let mut snapshots = self.latest_snapshots.clone();
        snapshots.clients.remove(&id);
        proof {
            assert(snapshots@.clients =~= self@.states.remove(id));
        }
        DatagramDown::State(snapshots)
    }
}

/// Every recorded change keeps the snapshots and the configurations about
/// the same set of clients.
pub proof fn step_keeps_clients_aligned(s: ServerStateView, c: ServerChangeView)
    requires
        s.states.dom() == s.configs.dom(),
    ensures
        server_step(s, c).states.dom() == server_step(s, c).configs.dom(),
{
    assert(server_step(s, c).states.dom() =~= server_step(s, c).configs.dom());
}

/// The order never goes back, and it moves by at most one per change.
pub proof fn step_order_is_monotonic(s: ServerStateView, c: ServerChangeView)
    ensures
        s.order <= server_step(s, c).order <= s.order + 1,
{
}

/// A snapshot or configuration from a client the server does not know is
/// ignored, and no one is notified.
pub proof fn step_ignores_unknown_clients(s: ServerStateView, c: ServerChangeView)
    requires
        c matches ServerChangeView::SetSnapshot(id, _) ==> !s.states.contains_key(id),
        c matches ServerChangeView::SetConfiguration(id, _) ==> !s.configs.contains_key(id),
        c is SetSnapshot || c is SetConfiguration,
    ensures
        server_step(s, c) == s,
        !notifies_configuration(s, c),
{
}

/// A client that was added and then removed leaves no trace besides the
/// advanced order.
pub proof fn add_then_remove_leaves_no_trace(s: ServerStateView, id: ClientId)
    requires
        !s.states.contains_key(id),
        !s.configs.contains_key(id),
    ensures
        ({
            let t = server_step(
                server_step(s, ServerChangeView::AddClient(id)),
                ServerChangeView::RemoveClient(id),
            );
            &&& t.states == s.states
            &&& t.configs == s.configs
            &&& t.order == s.order + 2
        }),
{
    let t = server_step(
        server_step(s, ServerChangeView::AddClient(id)),
        ServerChangeView::RemoveClient(id),
    );
    assert(t.states =~= s.states);
    assert(t.configs =~= s.configs);
}

/// A recorded snapshot is what the server hands out for that client until
/// the next change about that client.
pub proof fn snapshot_is_recorded(s: ServerStateView, id: ClientId, snap: StateSnapshotView)
    requires
        s.states.contains_key(id),
    ensures
        server_step(s, ServerChangeView::SetSnapshot(id, snap)).states[id] == snap,
{
}

} // verus!
