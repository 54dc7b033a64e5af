//! The ingestion task as a state machine.
//!
//! The task bridges the external publish/subscribe backend into the broker:
//! it sets up its subscription, then pulls messages for as long as the process
//! lives. It reads the payload of each as the UTF-8 text of a topic, hands the
//! topic to the broker and only then acknowledges the message, so that a
//! message is never acknowledged without having been handed over. The machine
//! decides; the runtime talks to the backend and reports the outcome of each
//! request as the next event.

use crate::message::Notification;
use vstd::prelude::*;
use vstd::utf8::{decode_utf8, valid_utf8};

verus! {

/// The exit status of the process after the ingestion task was aborted.
pub const FATAL_EXIT_CODE: i32 = 0x0100;

/// Why the ingestion task was aborted.
#[derive(Clone, Copy, Debug, PartialEq, Eq, Structural)]
pub enum IngestError {
    /// A request to the backend failed.
    Backend,
    /// A payload was not valid UTF-8.
    Decode,
}

/// What the task is waiting for.
#[derive(Clone, Copy, Debug, PartialEq, Eq, Structural)]
pub enum IngestPhase {
    /// For the credentials to be resolved.
    Authenticating,
    /// For the connection to the backend.
    Connecting,
    /// For the answer whether the subscription exists.
    Probing,
    /// For the subscription to be created.
    Creating,
    /// For the message stream to open.
    Subscribing,
    /// For the next message.
    Pulling,
    /// For the acknowledgement of the pulled message to be accepted.
    Acknowledging,
    /// For nothing: the task has ended.
    Stopped,
}

/// The outcome of the request that the task made last.
#[derive(Debug)]
pub enum IngestEvent {
    /// The request succeeded.
    Completed,
    /// The backend answered whether the subscription exists.
    Exists(bool),
    /// The backend delivered a message with this payload.
    Message(Vec<u8>),
    /// The message stream has ended.
    EndOfStream,
    /// The request failed.
    Failed,
}

/// One thing for the runtime to do on behalf of the task.
#[derive(Debug)]
pub enum IngestAction {
    /// Resolve the credentials.
    Authenticate,
    /// Connect to the backend.
    Connect,
    /// Ask whether the subscription exists.
    Probe,
    /// Create the subscription on the configured topic.
    Create,
    /// Open the message stream of the subscription.
    Subscribe,
    /// Wait for the next message.
    Pull,
    /// Acknowledge the message pulled last.
    Acknowledge,
    /// Hand the notification to the broker.
    Notify(Notification),
    /// End the task; the process goes on.
    Finish,
    /// End the task and the process.
    Abort(IngestError),
}

/// What an action asks for, as plain values.
pub enum IngestCommand {
    Authenticate,
    Connect,
    Probe,
    Create,
    Subscribe,
    Pull,
    Acknowledge,
    Notify(Seq<char>),
    Finish,
    Abort(IngestError),
}

impl View for IngestAction {
    type V = IngestCommand;

    open spec fn view(&self) -> IngestCommand {
        match *self {
            IngestAction::Authenticate => IngestCommand::Authenticate,
            IngestAction::Connect => IngestCommand::Connect,
            IngestAction::Probe => IngestCommand::Probe,
            IngestAction::Create => IngestCommand::Create,
            IngestAction::Subscribe => IngestCommand::Subscribe,
            IngestAction::Pull => IngestCommand::Pull,
            IngestAction::Acknowledge => IngestCommand::Acknowledge,
            IngestAction::Notify(msg) => IngestCommand::Notify(msg@),
            IngestAction::Finish => IngestCommand::Finish,
            IngestAction::Abort(error) => IngestCommand::Abort(error),
        }
    }
}

/// What a list of actions asks for, in order.
pub open spec fn ingest_commands(actions: Seq<IngestAction>) -> Seq<IngestCommand> {
    actions.map_values(|action: IngestAction| action@)
}

/// What the task does with a message that it pulled: a payload that is
/// valid UTF-8 goes to the broker as a topic, and after that hand-off the
/// message is acknowledged; any other payload ends the task and the process,
/// and its message is not acknowledged.
pub open spec fn on_pulled(payload: Seq<u8>) -> (IngestPhase, Seq<IngestCommand>) {
    if valid_utf8(payload) {
        (
            IngestPhase::Acknowledging,
            seq![IngestCommand::Notify(decode_utf8(payload)), IngestCommand::Acknowledge],
        )
    } else {
        (IngestPhase::Stopped, seq![IngestCommand::Abort(IngestError::Decode)])
    }
}

/// The phase of the task after `event`, and what the task asks for.
///
/// A failed request aborts the task in every phase but `Stopped`. The
/// subscription is created only where the backend says that it does not exist.
/// An event that is no outcome of the request that the phase waits for is
/// ignored.
pub open spec fn ingest_step(phase: IngestPhase, event: IngestEvent) -> (
    IngestPhase,
    Seq<IngestCommand>,
) {
    match (phase, event) {
        (IngestPhase::Stopped, _) => (phase, seq![]),
        (_, IngestEvent::Failed) => (
            IngestPhase::Stopped,
            seq![IngestCommand::Abort(IngestError::Backend)],
        ),
        (IngestPhase::Authenticating, IngestEvent::Completed) => (
            IngestPhase::Connecting,
            seq![IngestCommand::Connect],
        ),
        (IngestPhase::Connecting, IngestEvent::Completed) => (
            IngestPhase::Probing,
            seq![IngestCommand::Probe],
        ),
        (IngestPhase::Probing, IngestEvent::Exists(true)) => (
            IngestPhase::Subscribing,
            seq![IngestCommand::Subscribe],
        ),
        (IngestPhase::Probing, IngestEvent::Exists(false)) => (
            IngestPhase::Creating,
            seq![IngestCommand::Create],
        ),
        (IngestPhase::Creating, IngestEvent::Completed) => (
            IngestPhase::Subscribing,
            seq![IngestCommand::Subscribe],
        ),
        (IngestPhase::Subscribing, IngestEvent::Completed) => (
            IngestPhase::Pulling,
            seq![IngestCommand::Pull],
        ),
        (IngestPhase::Pulling, IngestEvent::Message(payload)) => on_pulled(payload@),
        (IngestPhase::Pulling, IngestEvent::EndOfStream) => (
            IngestPhase::Stopped,
            seq![IngestCommand::Finish],
        ),
        (IngestPhase::Acknowledging, IngestEvent::Completed) => (
            IngestPhase::Pulling,
            seq![IngestCommand::Pull],
        ),
        _ => (phase, seq![]),
    }
}

/// Calls `String::from_utf8`, which checks that the bytes are UTF-8 and then
/// takes them over as the text they encode.
///
/// Trusted: the call succeeds exactly on valid UTF-8, and the text is the
/// decoding of the bytes.
#[verifier::external_body]
fn text_from_utf8(bytes: Vec<u8>) -> (text: Option<String>)
    ensures
        text is Some <==> valid_utf8(bytes@),
        text matches Some(decoded) ==> decoded@ == decode_utf8(bytes@),
{
    match String::from_utf8(bytes) {
        Ok(text) => Some(text),
        Err(_) => None,
    }
}

/// Reads a payload as the notification of a topic: the payload is the UTF-8
/// text of the topic and nothing else. A payload that is not valid UTF-8 is a
/// decode error.
pub fn decode(payload: Vec<u8>) -> (outcome: Result<Notification, IngestError>)
    ensures
        outcome is Ok <==> valid_utf8(payload@),
        outcome matches Ok(msg) ==> msg@ == decode_utf8(payload@),
        outcome matches Err(error) ==> error == IngestError::Decode,
{
    match text_from_utf8(payload) {
        Some(text) => Ok(Notification(text)),
        None => Err(IngestError::Decode),
    }
}

/// The state of the ingestion task.
pub struct Ingestion {
    phase: IngestPhase,
}

impl View for Ingestion {
    type V = IngestPhase;

    closed spec fn view(&self) -> IngestPhase {
        self.phase
    }
}

impl Ingestion {
    /// Starts the task: it asks for the credentials to be resolved.
    pub fn start() -> (started: (Ingestion, Vec<IngestAction>))
        ensures
            started.0@ == IngestPhase::Authenticating,
            ingest_commands(started.1@) == seq![IngestCommand::Authenticate],
    {
        let mut actions: Vec<IngestAction> = Vec::new();
        actions.push(IngestAction::Authenticate);
        assert(ingest_commands(actions@) =~= seq![IngestCommand::Authenticate]);
        (Ingestion { phase: IngestPhase::Authenticating }, actions)
    }

    /// What the task is waiting for.
    pub fn phase(&self) -> (phase: IngestPhase)
        ensures
            phase == self@,
    {
        self.phase
    }

    /// Moves to `phase` and asks for `action`.
    fn advance(&mut self, phase: IngestPhase, action: IngestAction) -> (actions: Vec<IngestAction>)
        ensures
            final(self)@ == phase,
            ingest_commands(actions@) == seq![action@],
    {
        self.phase = phase;
        let mut actions: Vec<IngestAction> = Vec::new();
        actions.push(action);
        assert(ingest_commands(actions@) =~= seq![action@]);
        actions
    }

    /// Stays as it is and asks for nothing.
    fn ignore(&self) -> (actions: Vec<IngestAction>)
        ensures
            ingest_commands(actions@) == Seq::<IngestCommand>::empty(),
    {
        let actions: Vec<IngestAction> = Vec::new();
        assert(ingest_commands(actions@) =~= Seq::<IngestCommand>::empty());
        actions
    }

    /// Takes a message that was pulled: hands its topic to the broker and then
    /// acknowledges it, or gives up on a payload that is no text.
    fn pulled(&mut self, payload: Vec<u8>) -> (actions: Vec<IngestAction>)
        ensures
            (final(self)@, ingest_commands(actions@)) == on_pulled(payload@),
    {
        match decode(payload) {
            Ok(msg) => {
                self.phase = IngestPhase::Acknowledging;
                let ghost topic = msg@;
                let mut actions: Vec<IngestAction> = Vec::new();
                actions.push(IngestAction::Notify(msg));
                actions.push(IngestAction::Acknowledge);
                assert(ingest_commands(actions@) =~= seq![
                    IngestCommand::Notify(topic),
                    IngestCommand::Acknowledge,
                ]);
                actions
            },
            Err(error) => self.advance(IngestPhase::Stopped, IngestAction::Abort(error)),
        }
    }

    /// Takes the outcome of the request that the task made last.
    pub fn step(&mut self, event: IngestEvent) -> (actions: Vec<IngestAction>)
        ensures
            (final(self)@, ingest_commands(actions@)) == ingest_step(old(self)@, event),
    {
        match (self.phase, event) {
            (IngestPhase::Stopped, _) => self.ignore(),
            (_, IngestEvent::Failed) => self.advance(
                IngestPhase::Stopped,
                IngestAction::Abort(IngestError::Backend),
            ),
            (IngestPhase::Authenticating, IngestEvent::Completed) => self.advance(
                IngestPhase::Connecting,
                IngestAction::Connect,
            ),
            (IngestPhase::Connecting, IngestEvent::Completed) => self.advance(
                IngestPhase::Probing,
                IngestAction::Probe,
            ),
            (IngestPhase::Probing, IngestEvent::Exists(true)) => self.advance(
                IngestPhase::Subscribing,
                IngestAction::Subscribe,
            ),
            (IngestPhase::Probing, IngestEvent::Exists(false)) => self.advance(
                IngestPhase::Creating,
                IngestAction::Create,
            ),
            (IngestPhase::Creating, IngestEvent::Completed) => self.advance(
                IngestPhase::Subscribing,
                IngestAction::Subscribe,
            ),
            (IngestPhase::Subscribing, IngestEvent::Completed) => self.advance(
                IngestPhase::Pulling,
                IngestAction::Pull,
            ),
            (IngestPhase::Pulling, IngestEvent::Message(payload)) => self.pulled(payload),
            (IngestPhase::Pulling, IngestEvent::EndOfStream) => self.advance(
                IngestPhase::Stopped,
                IngestAction::Finish,
            ),
            (IngestPhase::Acknowledging, IngestEvent::Completed) => self.advance(
                IngestPhase::Pulling,
                IngestAction::Pull,
            ),
            _ => self.ignore(),
        }
    }
}

/// Once the task has stopped it stays stopped and asks for nothing more.
pub proof fn law_stopped_is_final(event: IngestEvent)
    ensures
        ingest_step(IngestPhase::Stopped, event) == (
            IngestPhase::Stopped,
            Seq::<IngestCommand>::empty(),
        ),
{
}

/// The broker is notified only of a payload that was just pulled and found to
/// be valid UTF-8, and then of exactly the text it encodes; the
/// acknowledgement of the message follows the notification at once.
pub proof fn law_notifies_what_was_pulled(phase: IngestPhase, event: IngestEvent, at: int)
    requires
        0 <= at < ingest_step(phase, event).1.len(),
        ingest_step(phase, event).1[at] is Notify,
    ensures
        phase == IngestPhase::Pulling,
        event matches IngestEvent::Message(payload) && valid_utf8(payload@) && ingest_step(
            phase,
            event,
        ) == (
            IngestPhase::Acknowledging,
            seq![IngestCommand::Notify(decode_utf8(payload@)), IngestCommand::Acknowledge],
        ),
{
}

/// A message is acknowledged only after its topic has been handed to the
/// broker: wherever the task asks for an acknowledgement, the request before
/// it is the notification of the message that was just pulled.
pub proof fn law_acknowledges_after_handing_over(phase: IngestPhase, event: IngestEvent, at: int)
    requires
        0 <= at < ingest_step(phase, event).1.len(),
        ingest_step(phase, event).1[at] is Acknowledge,
    ensures
        at == 1,
        event matches IngestEvent::Message(payload) && valid_utf8(payload@) && ingest_step(
            phase,
            event,
        ).1[0] == IngestCommand::Notify(decode_utf8(payload@)),
{
}

/// A message whose payload is not valid UTF-8 is neither handed to the broker
/// nor acknowledged: the task gives up with a decode error.
pub proof fn law_undecodable_payload_is_fatal(payload: Vec<u8>)
    requires
        !valid_utf8(payload@),
    ensures
        ingest_step(IngestPhase::Pulling, IngestEvent::Message(payload)) == (
            IngestPhase::Stopped,
            seq![IngestCommand::Abort(IngestError::Decode)],
        ),
{
}

/// The subscription is created exactly where the backend says that it does
/// not exist.
pub proof fn law_creates_only_what_is_missing(phase: IngestPhase, event: IngestEvent)
    ensures
        ingest_step(phase, event).1 == seq![IngestCommand::Create] <==> (phase
            == IngestPhase::Probing && event == IngestEvent::Exists(false)),
{
    let asked = ingest_step(phase, event).1;
    if asked == seq![IngestCommand::Create] {
        assert(asked.len() == 1);
        assert(asked[0] == IngestCommand::Create);
    }
}

} // verus!
