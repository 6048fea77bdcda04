//! The server side of the shared scene objects: who holds each object, where
//! it is, and what is sent to clients in reaction to their messages.
use crate::app::{AppDatagramUp, AppDown, AppUp, Snapshot};
use crate::model::{ClientId, DatagramDown, Pose};
use vstd::prelude::*;

verus! {

/// One shared object: the client that holds it (0 for nobody) and its pose.
#[derive(Clone, Copy, PartialEq, Eq, Structural, Debug)]
pub struct AppObject {
    pub owner: ClientId,
    pub pose: Pose,
}

/// What the connections and the timer hand to the object server.
#[derive(Debug)]
pub enum AppServerMessage {
    Datagram(ClientId, AppDatagramUp),
    AppUp(ClientId, AppUp),
    ResetObjects,
}

/// One event for the object server, with the sending client attached.
#[derive(Debug)]
pub enum UpMessage {
    IntervalLapsed,
    SetPose(ClientId, usize, Pose),
    Init(Snapshot),
    Grab(ClientId, u32),
    ResetObjects,
}

/// Flattens a message from a connection into an event.
pub fn flatten_message(message: AppServerMessage) -> (e: UpMessage)
    ensures
        match message {
            AppServerMessage::Datagram(client, AppDatagramUp::SetPose(object, pose)) => e
                == UpMessage::SetPose(client, object, pose),
            AppServerMessage::AppUp(_, AppUp::Init(s)) => e matches UpMessage::Init(t)
                && t.objects@ == s.objects@,
            AppServerMessage::AppUp(client, AppUp::Grab(object)) => e == UpMessage::Grab(
                client,
                object,
            ),
            AppServerMessage::ResetObjects => e == UpMessage::ResetObjects,
        },
{
    match message {
        AppServerMessage::Datagram(client_id, datagram) => match datagram {
            AppDatagramUp::SetPose(object_id, pose) => UpMessage::SetPose(client_id, object_id, pose),
        },
        AppServerMessage::AppUp(client_id, message) => match message {
            AppUp::Init(snapshot) => UpMessage::Init(snapshot),
            AppUp::Grab(object_id) => UpMessage::Grab(client_id, object_id),
        },
        AppServerMessage::ResetObjects => UpMessage::ResetObjects,
    }
}

/// Mathematical model of an [`UpMessage`].
pub enum UpMessageView {
    IntervalLapsed,
    SetPose(ClientId, usize, Pose),
    Init(Seq<Pose>),
    Grab(ClientId, u32),
    ResetObjects,
}

impl View for UpMessage {
    type V = UpMessageView;

    open spec fn view(&self) -> UpMessageView {
        match self {
            UpMessage::IntervalLapsed => UpMessageView::IntervalLapsed,
            UpMessage::SetPose(c, o, p) => UpMessageView::SetPose(*c, *o, *p),
            UpMessage::Init(s) => UpMessageView::Init(s.objects@),
            UpMessage::Grab(c, o) => UpMessageView::Grab(*c, *o),
            UpMessage::ResetObjects => UpMessageView::ResetObjects,
        }
    }
}

/// What the object server asks its driver to do after an event.
#[derive(Debug)]
pub enum AppAction {
    /// Nothing to send.
    Nothing,
    /// Send `message` to client `to`, if it is connected.
    Notify { to: ClientId, message: AppDown },
    /// Send `DatagramDown::App` with this snapshot to every connected client.
    Broadcast(Snapshot),
}

/// Mathematical model of an [`AppAction`].
pub enum AppActionView {
    Nothing,
    Notify { to: ClientId, message: AppDown },
    Broadcast(Seq<Pose>),
}

impl View for AppAction {
    type V = AppActionView;

    open spec fn view(&self) -> AppActionView {
        match self {
            AppAction::Nothing => AppActionView::Nothing,
            AppAction::Notify { to, message } => AppActionView::Notify { to: *to, message: *message },
            AppAction::Broadcast(s) => AppActionView::Broadcast(s.objects@),
        }
    }
}

/// The datagram that carries a broadcast snapshot.
pub fn broadcast_datagram(snapshot: Snapshot) -> (d: DatagramDown)
    ensures
        d matches DatagramDown::App(s) && s.objects@ == snapshot.objects@,
{
    DatagramDown::App(snapshot)
}

/// The objects as the server started them, and as they are now.
#[derive(Debug)]
pub struct AppServerState {
    pub initial_state: Vec<AppObject>,
    pub state: Vec<AppObject>,
}

/// Mathematical model of an [`AppServerState`].
pub struct AppServerView {
    pub initial: Seq<AppObject>,
    pub state: Seq<AppObject>,
}

impl View for AppServerState {
    type V = AppServerView;

    open spec fn view(&self) -> AppServerView {
        AppServerView { initial: self.initial_state@, state: self.state@ }
    }
}

/// The poses of `objects`, in order.
pub open spec fn poses_of(objects: Seq<AppObject>) -> Seq<Pose> {
    objects.map_values(|o: AppObject| o.pose)
}

/// The objects of a first snapshot: nobody holds them.
pub open spec fn unowned(poses: Seq<Pose>) -> Seq<AppObject> {
    poses.map_values(|p: Pose| AppObject { owner: 0, pose: p })
}

/// The objects after `client` asks to move `object` to `pose`: only the
/// holder of an existing object may move it.
pub open spec fn moved(state: Seq<AppObject>, client: ClientId, object: int, pose: Pose) -> Seq<
    AppObject,
> {
    if 0 <= object < state.len() && state[object].owner == client {
        state.update(object, AppObject { owner: client, pose })
    } else {
        state
    }
}

/// The objects after `client` takes `object`.
pub open spec fn grabbed(state: Seq<AppObject>, client: ClientId, object: int) -> Seq<AppObject> {
    if 0 <= object < state.len() {
        state.update(object, AppObject { owner: client, pose: state[object].pose })
    } else {
        state
    }
}

/// How the object server's state changes on each event.
pub open spec fn app_step(s: AppServerView, m: UpMessageView) -> AppServerView {
    match m {
        UpMessageView::IntervalLapsed => s,
        UpMessageView::SetPose(client, object, pose) => AppServerView {
            initial: s.initial,
            state: moved(s.state, client, object as int, pose),
        },
        UpMessageView::Init(poses) => if s.initial.len() == 0 {
            AppServerView { initial: unowned(poses), state: unowned(poses) }
        } else {
            s
        },
        UpMessageView::Grab(client, object) => AppServerView {
            initial: s.initial,
            state: grabbed(s.state, client, object as int),
        },
        UpMessageView::ResetObjects => AppServerView { initial: s.initial, state: s.initial },
    }
}

/// What is sent on each event: the current poses on every tick, and a
/// release notice to the previous holder of a grabbed object.
pub open spec fn app_action(s: AppServerView, m: UpMessageView) -> AppActionView {
    match m {
        UpMessageView::IntervalLapsed => AppActionView::Broadcast(poses_of(s.state)),
        UpMessageView::Grab(_, object) => if (object as int) < s.state.len() {
            AppActionView::Notify {
                to: s.state[object as int].owner,
                message: AppDown::Release(object),
            }
        } else {
            AppActionView::Nothing
        },
        _ => AppActionView::Nothing,
    }
}

impl AppServerState {
    /// A server that has not been given any objects yet.
    pub fn new() -> (r: AppServerState)
        ensures
            r@.initial == Seq::<AppObject>::empty(),
            r@.state == Seq::<AppObject>::empty(),
    {
        AppServerState { initial_state: Vec::new(), state: Vec::new() }
    }

    /// The poses of the current objects, as broadcast to the clients.
    pub fn snapshot(&self) -> (s: Snapshot)
        ensures
            s.objects@ == poses_of(self.state@),
    {
        let mut objects: Vec<Pose> = Vec::new();
        let mut i: usize = 0;
        while i < self.state.len()
            invariant
                i <= self.state@.len(),
                objects@ == poses_of(self.state@.take(i as int)),
            decreases self.state@.len() - i,
        {
            objects.push(self.state[i].pose);
            proof {
                assert(poses_of(self.state@.take(i + 1)) =~= poses_of(self.state@.take(i as int)).push(
                    self.state@[i as int].pose,
                ));
            }
            i = i + 1;
        }
        proof {
            assert(self.state@.take(i as int) =~= self.state@);
        }
        Snapshot { objects }
    }

    /// Client `client` moves object `object`.
    pub fn set_pose(&mut self, client: ClientId, object: usize, pose: Pose)
        ensures
            final(self)@ == app_step(old(self)@, UpMessageView::SetPose(client, object, pose)),
    {
        if object < self.state.len() {
            let entry = self.state[object];
            if entry.owner == client {
                self.state.set(object, AppObject { owner: entry.owner, pose });
            }
        }
    }

    /// The first snapshot of objects becomes the initial and current state;
    /// later ones are ignored.
    pub fn init(&mut self, snapshot: Snapshot)
        ensures
            final(self)@ == app_step(old(self)@, UpMessageView::Init(snapshot.objects@)),
    {
        if self.initial_state.len() != 0 {
            return;
        }
        let mut i: usize = 0;
        while i < snapshot.objects.len()
            invariant
                i <= snapshot.objects@.len(),
                self.initial_state@ == unowned(snapshot.objects@.take(i as int)),
            decreases snapshot.objects@.len() - i,
        {
            self.initial_state.push(AppObject { owner: 0, pose: snapshot.objects[i] });
            proof {
                assert(unowned(snapshot.objects@.take(i + 1)) =~= unowned(
                    snapshot.objects@.take(i as int),
                ).push(AppObject { owner: 0, pose: snapshot.objects@[i as int] }));
            }
            i = i + 1;
        }
        proof {
            assert(snapshot.objects@.take(i as int) =~= snapshot.objects@);
        }
        self.state = self.initial_state.clone();
        proof {
            assert(self.state@ =~= self.initial_state@);
        }
    }

    /// Client `client` takes object `object`; the previous holder is told to
    /// let go of it.
    pub fn grab(&mut self, client: ClientId, object: u32) -> (a: AppAction)
        ensures
            final(self)@ == app_step(old(self)@, UpMessageView::Grab(client, object)),
            a@ == app_action(old(self)@, UpMessageView::Grab(client, object)),
            final(self).initial_state@ == old(self).initial_state@,
            final(self).state@.len() == old(self).state@.len(),
            (object as int) < old(self).state@.len() ==> final(self).state@[object as int] == (
            AppObject { owner: client, pose: old(self).state@[object as int].pose }),
            forall|i: int|
                0 <= i < old(self).state@.len() && i != object as int ==> #[trigger] final(self).state@[i]
                    == old(self).state@[i],
    {
        let index = object as usize;
        if index < self.state.len() {
            let entry = self.state[index];
            self.state.set(index, AppObject { owner: client, pose: entry.pose });
            AppAction::Notify { to: entry.owner, message: AppDown::Release(object) }
        } else {
            AppAction::Nothing
        }
    }

    /// All objects go back to where they were first reported, unheld.
    pub fn reset(&mut self)
        ensures
            final(self)@ == app_step(old(self)@, UpMessageView::ResetObjects),
    {
        self.state = self.initial_state.clone();
        proof {
            assert(self.state@ =~= self.initial_state@);
        }
    }

    /// Handles one event and says what to send.
    pub fn handle(&mut self, message: UpMessage) -> (a: AppAction)
        ensures
            final(self)@ == app_step(old(self)@, message@),
            a@ == app_action(old(self)@, message@),
    {
        match message {
            UpMessage::IntervalLapsed => AppAction::Broadcast(self.snapshot()),
            UpMessage::SetPose(client, object, pose) => {
                self.set_pose(client, object, pose);
                AppAction::Nothing
            },
            UpMessage::Init(snapshot) => {
                self.init(snapshot);
                AppAction::Nothing
            },
            UpMessage::Grab(client, object) => self.grab(client, object),
            UpMessage::ResetObjects => {
                self.reset();
                AppAction::Nothing
            },
        }
    }
}

/// Every event keeps as many current objects as initial ones.
pub proof fn step_keeps_object_count(s: AppServerView, m: UpMessageView)
    requires
        s.state.len() == s.initial.len(),
    ensures
        app_step(s, m).state.len() == app_step(s, m).initial.len(),
{
}

/// Only the holder of an object can move it: a pose from anyone else leaves
/// the objects as they are.
pub proof fn only_holder_moves(s: AppServerView, client: ClientId, object: usize, pose: Pose)
    requires
        object < s.state.len() ==> s.state[object as int].owner != client,
    ensures
        app_step(s, UpMessageView::SetPose(client, object, pose)) == s,
{
}

/// After grabbing an object a client can move it, and the next tick
/// broadcasts the new pose.
pub proof fn grab_then_move(s: AppServerView, client: ClientId, object: u32, pose: Pose)
    requires
        (object as int) < s.state.len(),
    ensures
        ({
            let t = app_step(
                app_step(s, UpMessageView::Grab(client, object)),
                UpMessageView::SetPose(client, object as usize, pose),
            );
            &&& t.state[object as int] == (AppObject { owner: client, pose })
            &&& app_action(t, UpMessageView::IntervalLapsed) matches AppActionView::Broadcast(p)
                && p[object as int] == pose
        }),
{
}

/// Objects are initialised once: a snapshot received after the first
/// non-empty one changes nothing.
pub proof fn init_only_once(s: AppServerView, poses: Seq<Pose>)
    requires
        s.initial.len() != 0,
    ensures
        app_step(s, UpMessageView::Init(poses)) == s,
{
}

/// A reset brings every object back to its first reported pose, unheld.
pub proof fn reset_restores_initial(s: AppServerView, m: UpMessageView)
    ensures
        app_step(app_step(s, m), UpMessageView::ResetObjects).state == app_step(s, m).initial,
{
}

/// A grab changes only who holds the object: the grabbed object keeps its
/// current pose, every other object and the initial objects stay as they are.
pub proof fn grab_changes_only_holder(s: AppServerView, client: ClientId, object: u32)
    ensures
        ({
            let t = app_step(s, UpMessageView::Grab(client, object));
            &&& t.initial == s.initial
            &&& t.state.len() == s.state.len()
            &&& (object as int) < s.state.len() ==> t.state[object as int].owner == client
                && t.state[object as int].pose == s.state[object as int].pose
            &&& forall|i: int|
                0 <= i < s.state.len() && i != object as int ==> #[trigger] t.state[i] == s.state[i]
        }),
{
}

/// A grab followed by a tick broadcasts the poses the objects had before the
/// grab.
pub proof fn grab_keeps_broadcast_poses(s: AppServerView, client: ClientId, object: u32)
    ensures
        app_action(app_step(s, UpMessageView::Grab(client, object)), UpMessageView::IntervalLapsed)
            == AppActionView::Broadcast(poses_of(s.state)),
{
    let t = app_step(s, UpMessageView::Grab(client, object));
    assert(poses_of(t.state) =~= poses_of(s.state));
}

} // verus!
