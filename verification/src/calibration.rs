//! Calibration between two clients: the server asks both to send samples of
//! one device each, collects the samples, and hands them to the solver.
use crate::model::{
    BaseSpace, CalibrationConfiguration, CalibrationSample, ClientId, ConfigurationDown,
    ConfigurationSnapshotSet,
};
use vstd::prelude::*;

verus! {

broadcast use vstd::std_specs::hash::group_hash_axioms;

/// Everything needed to compute a calibration.
#[derive(Debug)]
pub struct CalibrationInput {
    pub target: Vec<CalibrationSample>,
    pub target_name: String,
    pub reference: Vec<CalibrationSample>,
    pub reference_name: String,
}

/// Messages handled by the calibration protocol.
#[derive(Debug)]
pub enum CalibrationProtocolMessage {
    /// Start calibrating the device `client_target.1` of client
    /// `client_target.0` against `client_reference`.
    Begin {
        client_target: (ClientId, String),
        client_reference: (ClientId, String),
        conf: CalibrationConfiguration,
    },
    /// A sample sent by a client.
    Sample { client: ClientId, sample: CalibrationSample },
    /// Compute a calibration again from recorded samples.
    Reapply {
        client_target: (ClientId, String),
        client_reference: (ClientId, String),
        data: CalibrationInput,
    },
}

/// The samples collected so far for one calibration.
#[derive(Debug)]
pub struct SampleCollector {
    pub sample_count: usize,
    pub client_target: ClientId,
    pub client_reference: ClientId,
    pub samples_target: Vec<CalibrationSample>,
    pub samples_reference: Vec<CalibrationSample>,
}

/// Whether enough samples of both clients have been collected.
pub open spec fn collected_enough(count: usize, target: Seq<CalibrationSample>, reference: Seq<
    CalibrationSample,
>) -> bool {
    target.len() >= count && reference.len() >= count
}

impl SampleCollector {
    /// Starts collecting `sample_count` samples from each of two clients.
    pub fn new(sample_count: usize, client_target: ClientId, client_reference: ClientId) -> (r:
        SampleCollector)
        ensures
            r.sample_count == sample_count,
            r.client_target == client_target,
            r.client_reference == client_reference,
            r.samples_target@ == Seq::<CalibrationSample>::empty(),
            r.samples_reference@ == Seq::<CalibrationSample>::empty(),
    {
        SampleCollector {
            sample_count,
            client_target,
            client_reference,
            samples_target: Vec::new(),
            samples_reference: Vec::new(),
        }
    }

    /// Takes one message; returns whether collection is complete. Samples
    /// of the target client are recorded first, then those of the reference
    /// client; other messages are ignored, and only a sample can complete
    /// the collection.
    pub fn accept(&mut self, message: CalibrationProtocolMessage) -> (done: bool)
        ensures
            final(self).sample_count == old(self).sample_count,
            final(self).client_target == old(self).client_target,
            final(self).client_reference == old(self).client_reference,
            match message {
                CalibrationProtocolMessage::Sample { client, sample } => {
                    &&& final(self).samples_target@ == if client == old(self).client_target {
                        old(self).samples_target@.push(sample)
                    } else {
                        old(self).samples_target@
                    }
                    &&& final(self).samples_reference@ == if client != old(self).client_target
                        && client == old(self).client_reference {
                        old(self).samples_reference@.push(sample)
                    } else {
                        old(self).samples_reference@
                    }
                    &&& done == collected_enough(
                        final(self).sample_count,
                        final(self).samples_target@,
                        final(self).samples_reference@,
                    )
                },
                _ => {
                    &&& final(self).samples_target@ == old(self).samples_target@
                    &&& final(self).samples_reference@ == old(self).samples_reference@
                    &&& !done
                },
            },
    {
        match message {
            CalibrationProtocolMessage::Sample { client, sample } => {
                if client == self.client_target {
                    self.samples_target.push(sample);
                } else if client == self.client_reference {
                    self.samples_reference.push(sample);
                }
                self.samples_target.len() >= self.sample_count && self.samples_reference.len()
                    >= self.sample_count
            },
            _ => false,
        }
    }

    /// The samples collected, target's first.
    pub fn into_samples(self) -> (r: (Vec<CalibrationSample>, Vec<CalibrationSample>))
        ensures
            r.0@ == self.samples_target@,
            r.1@ == self.samples_reference@,
    {
        (self.samples_target, self.samples_reference)
    }
}

/// What the calibration protocol does with a message while it is idle.
#[derive(Debug)]
pub enum CalibrationStep {
    /// Ask both clients for samples, then collect them.
    Start {
        target: (ClientId, String),
        reference: (ClientId, String),
        conf: CalibrationConfiguration,
    },
    /// Nothing to do.
    Ignore,
    /// Compute the calibration from recorded samples.
    Reapply { target_id: ClientId, reference_id: ClientId, data: CalibrationInput },
}

/// Decides what an idle calibration protocol does with a message: samples
/// that arrive outside a calibration are dropped.
pub fn plan_calibration(message: CalibrationProtocolMessage) -> (r: CalibrationStep)
    ensures
        match message {
            CalibrationProtocolMessage::Begin { client_target, client_reference, conf } => r
                matches CalibrationStep::Start { target, reference, conf: c } && target.0
                == client_target.0 && target.1@ == client_target.1@ && reference.0
                == client_reference.0 && reference.1@ == client_reference.1@ && c == conf,
            CalibrationProtocolMessage::Sample { .. } => r is Ignore,
            CalibrationProtocolMessage::Reapply { client_target, client_reference, data } => r
                matches CalibrationStep::Reapply { target_id, reference_id, data: d } && target_id
                == client_target.0 && reference_id == client_reference.0 && d.target@ == data.target@
                && d.reference@ == data.reference@ && d.target_name@ == data.target_name@
                && d.reference_name@ == data.reference_name@,
        },
{
    match message {
        CalibrationProtocolMessage::Begin { client_target, client_reference, conf } => {
            CalibrationStep::Start { target: client_target, reference: client_reference, conf }
        },
        CalibrationProtocolMessage::Sample { .. } => CalibrationStep::Ignore,
        CalibrationProtocolMessage::Reapply { client_target, client_reference, data } => {
            CalibrationStep::Reapply {
                target_id: client_target.0,
                reference_id: client_reference.0,
                data,
            }
        },
    }
}

/// The message that asks a client to start sending samples of the device
/// at `path`, in its stage space.
pub fn trigger_message(path: String, conf: CalibrationConfiguration) -> (m: ConfigurationDown)
    ensures
        m matches ConfigurationDown::TriggerCalibration(p, c, s) && p@ == path@ && c == conf && s
            == BaseSpace::Stage,
{
    ConfigurationDown::TriggerCalibration(path, conf, BaseSpace::Stage)
}

/// The name a client reported in its configuration, or "" for a client
/// without one.
pub open spec fn reported_name(config: ConfigurationSnapshotSet, id: ClientId) -> Seq<char> {
    if config@.contains_key(id) {
        config@[id].name
    } else {
        Seq::empty()
    }
}

/// The solver input for collected samples, labelled with the names the two
/// clients reported.
pub fn calibration_input(
    target: Vec<CalibrationSample>,
    reference: Vec<CalibrationSample>,
    config: &ConfigurationSnapshotSet,
    target_id: ClientId,
    reference_id: ClientId,
) -> (r: CalibrationInput)
    ensures
        r.target@ == target@,
        r.reference@ == reference@,
        r.target_name@ == reported_name(*config, target_id),
        r.reference_name@ == reported_name(*config, reference_id),
{
    let target_name = match config.clients.get(&target_id) {
        Some(c) => c.name.clone(),
        None => String::new(),
    };
    let reference_name = match config.clients.get(&reference_id) {
        Some(c) => c.name.clone(),
        None => String::new(),
    };
    CalibrationInput { target, target_name, reference, reference_name }
}

/// What makes the sample sender of a client start or stop.
#[derive(Debug)]
pub enum CalibrationTrigger {
    Start(String),
    Stop,
}

/// The sample sender of a client: idle, or sending samples of one device.
#[derive(Debug)]
pub enum SenderState {
    Idle,
    Sending(String),
}

/// How the sample sender reacts to a trigger (`None` when the trigger
/// channel has closed): a start switches to the new device, a stop
/// returns to idle, and a closed channel stops the sender for good
/// (`None` result).
pub fn next_sender_state(trigger: Option<CalibrationTrigger>) -> (r: Option<SenderState>)
    ensures
        match trigger {
            None => r is None,
            Some(CalibrationTrigger::Start(p)) => r matches Some(SenderState::Sending(q)) && q@
                == p@,
            Some(CalibrationTrigger::Stop) => r matches Some(SenderState::Idle),
        },
{
    match trigger {
        None => None,
        Some(CalibrationTrigger::Start(path)) => Some(SenderState::Sending(path)),
        Some(CalibrationTrigger::Stop) => Some(SenderState::Idle),
    }
}

/// Samples from one client are never counted for the other: collection is
/// complete exactly when both clients sent enough.
pub proof fn collection_needs_both_clients(
    count: usize,
    target: Seq<CalibrationSample>,
    reference: Seq<CalibrationSample>,
)
    requires
        count > 0,
        reference.len() == 0,
    ensures
        !collected_enough(count, target, reference),
{
}

} // verus!
