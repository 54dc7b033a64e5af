//! One WebSocket connection as a state machine.
//!
//! A session takes what happens on its connection (a frame, a transport
//! error, a heartbeat tick, a delivery from the broker, the end of the
//! connection) and answers with the actions that the runtime is to carry out:
//! frames for the client and messages for the broker. It owns the set of
//! topics it has joined and the time of the client's last sign of life.
//!
//! Times are nanoseconds on a monotonic clock of the caller's choosing.

use crate::broker::{subscribed, unsubscribed, Registry};
use crate::identifier::{parse_uuid, topic_of, uuid_value};
use crate::message::{topic_set, AddSub, ChatID, Disconnect, SubscriberHandle};
use vstd::prelude::*;

verus! {

/// How often a heartbeat tick is due, in nanoseconds.
pub const HEARTBEAT_INTERVAL: u64 = 25_000_000_000;

/// How long the client may stay silent before a heartbeat tick ends the
/// session, in nanoseconds.
pub const CLIENT_TIMEOUT: u64 = 10_000_000_000;

/// Where a session stands in its life.
#[derive(Clone, Copy, Debug, PartialEq, Eq, Structural)]
pub enum SessionState {
    /// The connection is open and the heartbeat runs.
    Active,
    /// The session has asked the runtime to stop it and waits for that.
    Closing,
    /// The session has reported its end to the broker.
    Terminated,
}

/// Why a connection is closed: the status code and an optional description.
#[derive(Debug)]
pub struct CloseReason {
    pub code: u16,
    pub description: Option<String>,
}

impl View for CloseReason {
    type V = (u16, Option<Seq<char>>);

    open spec fn view(&self) -> (u16, Option<Seq<char>>) {
        (
            self.code,
            match self.description {
                Some(text) => Some(text@),
                None => None,
            },
        )
    }
}

/// The reason of a close frame as plain values.
pub open spec fn reason_view(reason: Option<CloseReason>) -> Option<(u16, Option<Seq<char>>)> {
    match reason {
        Some(reason) => Some(reason@),
        None => None,
    }
}

/// A failure of the transport or a violation of the framing protocol.
#[derive(Clone, Copy, Debug, PartialEq, Eq, Structural)]
pub struct ProtocolError;

/// A frame from the client.
#[derive(Debug)]
pub enum Frame {
    Text(String),
    Binary(Vec<u8>),
    Continuation,
    Ping(Vec<u8>),
    Pong(Vec<u8>),
    Close(Option<CloseReason>),
    Nop,
}

/// One thing for the runtime to do on behalf of a session.
#[derive(Debug)]
pub enum SessionAction {
    /// Answer a ping with a pong of the same payload.
    Pong(Vec<u8>),
    /// Send a ping with an empty payload.
    Ping,
    /// Send a text frame.
    Text(String),
    /// Send a close frame.
    Close(Option<CloseReason>),
    /// Stop the session.
    Stop,
    /// Hand the request to the broker.
    Subscribe(AddSub),
    /// Hand the request to the broker.
    Unsubscribe(Disconnect),
}

/// What an action asks for, as plain values.
pub enum Command {
    Pong(Seq<u8>),
    Ping,
    Text(Seq<char>),
    Close(Option<(u16, Option<Seq<char>>)>),
    Stop,
    /// Subscribe the handle to the topic.
    Subscribe(Seq<char>, SubscriberHandle),
    /// Unsubscribe the handle from every topic of the set.
    Unsubscribe(Set<Seq<char>>, SubscriberHandle),
}

impl View for SessionAction {
    type V = Command;

    open spec fn view(&self) -> Command {
        match *self {
            SessionAction::Pong(payload) => Command::Pong(payload@),
            SessionAction::Ping => Command::Ping,
            SessionAction::Text(text) => Command::Text(text@),
            SessionAction::Close(reason) => Command::Close(reason_view(reason)),
            SessionAction::Stop => Command::Stop,
            SessionAction::Subscribe(msg) => Command::Subscribe(msg.chat_id@, msg.addr),
            SessionAction::Unsubscribe(msg) => Command::Unsubscribe(msg.topics(), msg.addr),
        }
    }
}

/// What a list of actions asks for, in order.
pub open spec fn commands(actions: Seq<SessionAction>) -> Seq<Command> {
    actions.map_values(|action: SessionAction| action@)
}

/// A session as plain values: the topics it has joined, the time of the
/// client's last sign of life, its own address and its state.
pub struct SessionView {
    pub topics: Set<Seq<char>>,
    pub hb: u64,
    pub addr: SubscriberHandle,
    pub state: SessionState,
}

/// Something that happens to a session.
pub enum SessionEvent {
    /// A frame arrived, or the transport failed, at time `now`.
    Frame(Result<Frame, ProtocolError>, u64),
    /// The heartbeat timer fired at time `now`.
    Tick(u64),
    /// The broker delivered a topic that fired.
    Delivery(ChatID),
    /// The runtime is stopping the session.
    Stopping,
}

/// The time from `hb` to `now`; zero if `now` is the earlier one.
pub open spec fn elapsed(now: u64, hb: u64) -> int {
    if now >= hb {
        now - hb
    } else {
        0
    }
}

/// What an active session does with a text frame that holds `text`, which
/// was read as `parsed`: where the text was read as a UUID, the text as it
/// stands is joined as a topic and the broker is asked to subscribe the
/// session to it; any other text is ignored.
pub open spec fn on_parsed_text(s: SessionView, text: Seq<char>, parsed: Option<u128>) -> (
    SessionView,
    Seq<Command>,
) {
    match parsed {
        Some(_) => (
            SessionView { topics: s.topics.insert(text), ..s },
            seq![Command::Subscribe(text, s.addr)],
        ),
        None => (s, seq![]),
    }
}

/// What a session does with a text frame that holds `text`, which was read as
/// `parsed`: only an active session reacts.
pub open spec fn on_text(s: SessionView, text: Seq<char>, parsed: Option<u128>) -> (
    SessionView,
    Seq<Command>,
) {
    if s.state == SessionState::Active {
        on_parsed_text(s, text, parsed)
    } else {
        (s, seq![])
    }
}

/// What an active session does with a frame or a transport error.
pub open spec fn on_frame(s: SessionView, msg: Result<Frame, ProtocolError>, now: u64) -> (
    SessionView,
    Seq<Command>,
) {
    match msg {
        Err(_) => (SessionView { state: SessionState::Closing, ..s }, seq![Command::Stop]),
        Ok(Frame::Ping(payload)) => (SessionView { hb: now, ..s }, seq![Command::Pong(payload@)]),
        Ok(Frame::Pong(_)) => (SessionView { hb: now, ..s }, seq![]),
        Ok(Frame::Text(text)) => on_parsed_text(s, text@, uuid_value(text@)),
        Ok(Frame::Binary(_)) => (s, seq![]),
        Ok(Frame::Close(reason)) => (
            SessionView { state: SessionState::Closing, ..s },
            seq![Command::Close(reason_view(reason)), Command::Stop],
        ),
        Ok(Frame::Continuation) => (
            SessionView { state: SessionState::Closing, ..s },
            seq![Command::Stop],
        ),
        Ok(Frame::Nop) => (s, seq![]),
    }
}

/// What an active session does on a heartbeat tick: a client that has been
/// silent for more than `CLIENT_TIMEOUT` is given up, any other is pinged.
pub open spec fn on_tick(s: SessionView, now: u64) -> (SessionView, Seq<Command>) {
    if elapsed(now, s.hb) > CLIENT_TIMEOUT {
        (
            SessionView { state: SessionState::Closing, ..s },
            seq![Command::Unsubscribe(s.topics, s.addr), Command::Stop],
        )
    } else {
        (s, seq![Command::Ping])
    }
}

/// The session once it has been stopped: terminated, and otherwise as it was.
pub open spec fn stopped(s: SessionView) -> SessionView {
    SessionView { state: SessionState::Terminated, ..s }
}

/// The session after `event`, and what it asks for.
///
/// Only an active session reacts to frames, ticks and deliveries. Stopping
/// always reports the session's topics to the broker and ends in
/// `Terminated`.
pub open spec fn step(s: SessionView, event: SessionEvent) -> (SessionView, Seq<Command>) {
    match event {
        SessionEvent::Stopping => (stopped(s), seq![Command::Unsubscribe(s.topics, s.addr)]),
        SessionEvent::Frame(msg, now) => if s.state == SessionState::Active {
            on_frame(s, msg, now)
        } else {
            (s, seq![])
        },
        SessionEvent::Tick(now) => if s.state == SessionState::Active {
            on_tick(s, now)
        } else {
            (s, seq![])
        },
        SessionEvent::Delivery(chat_id) => if s.state == SessionState::Active {
            (s, seq![Command::Text(chat_id@)])
        } else {
            (s, seq![])
        },
    }
}

/// Whether `list` holds a chat id that names `topic`.
fn holds(list: &Vec<ChatID>, topic: &ChatID) -> (found: bool)
    ensures
        found == topic_set(list@).contains(topic@),
{
    let mut i: usize = 0;
    while i < list.len()
        invariant
            i <= list.len(),
            forall|k: int| 0 <= k < i ==> (#[trigger] list[k])@ != topic@,
        decreases list.len() - i,
    {
        if list[i].0 == topic.0 {
            assert(list@[i as int]@ == topic@);
            return true;
        }
        i += 1;
    }
    false
}

/// A copy of `list`, entry by entry.
fn copied(list: &Vec<ChatID>) -> (copy: Vec<ChatID>)
    ensures
        copy@.len() == list@.len(),
        forall|k: int| 0 <= k < list@.len() ==> (#[trigger] copy@[k])@ == list@[k]@,
        topic_set(copy@) == topic_set(list@),
{
    let mut copy: Vec<ChatID> = Vec::new();
    let mut i: usize = 0;
    while i < list.len()
        invariant
            i <= list.len(),
            copy@.len() == i,
            forall|k: int| 0 <= k < i ==> (#[trigger] copy@[k])@ == list@[k]@,
        decreases list.len() - i,
    {
        copy.push(list[i].clone());
        i += 1;
    }
    proof {
        assert forall|topic: Seq<char>| topic_set(copy@).contains(topic) <==> topic_set(
            list@,
        ).contains(topic) by {
            if topic_set(copy@).contains(topic) {
                let k = choose|k: int| 0 <= k < copy@.len() && (#[trigger] copy@[k])@ == topic;
                assert(list@[k]@ == topic);
            }
            if topic_set(list@).contains(topic) {
                let k = choose|k: int| 0 <= k < list@.len() && (#[trigger] list@[k])@ == topic;
                assert(copy@[k]@ == topic);
            }
        }
        assert(topic_set(copy@) =~= topic_set(list@));
    }
    copy
}

/// No two entries of the list name the same topic.
pub open spec fn distinct_topics(list: Seq<ChatID>) -> bool {
    forall|i: int, j: int| 0 <= i < j < list.len() ==> (#[trigger] list[i])@ != (#[trigger] list[j])@
}

/// The state of one connection.
pub struct WsChatSession {
    chat_ids: Vec<ChatID>,
    hb: u64,
    addr: SubscriberHandle,
    state: SessionState,
}

impl View for WsChatSession {
    type V = SessionView;

    closed spec fn view(&self) -> SessionView {
        SessionView {
            topics: topic_set(self.chat_ids@),
            hb: self.hb,
            addr: self.addr,
            state: self.state,
        }
    }
}

impl WsChatSession {
    #[verifier::type_invariant]
    spec fn well_formed(&self) -> bool {
        distinct_topics(self.chat_ids@)
    }

    /// A session for the connection that was opened at time `now` and that the
    /// broker is to know as `addr`: active, with no topic joined.
    pub fn new(addr: SubscriberHandle, now: u64) -> (session: WsChatSession)
        ensures
            session@ == (SessionView {
                topics: Set::<Seq<char>>::empty(),
                hb: now,
                addr,
                state: SessionState::Active,
            }),
    {
        let session = WsChatSession {
            chat_ids: Vec::new(),
            hb: now,
            addr,
            state: SessionState::Active,
        };
        assert(session@.topics =~= Set::<Seq<char>>::empty());
        session
    }

    /// The request that takes this session out of every topic it has joined.
    fn farewell(&self) -> (msg: Disconnect)
        ensures
            msg.topics() == self@.topics,
            msg.addr == self@.addr,
    {
        Disconnect { chat_ids: copied(&self.chat_ids), addr: self.addr }
    }

    /// Takes a text frame that holds `text`, which has been read as `parsed`
    /// (see `uuid_value`): where the text was read as a UUID, joins the topic
    /// whose name is the text as it stands and asks the broker to subscribe
    /// the session to it. A text that is no UUID, and any text once the
    /// session is no longer active, is ignored.
    pub fn subscribe_parsed(&mut self, text: String, parsed: Option<u128>) -> (actions: Vec<
        SessionAction,
    >)
        ensures
            (final(self)@, commands(actions@)) == on_text(old(self)@, text@, parsed),
    {
        proof {
            use_type_invariant(&*self);
        }
        let mut actions: Vec<SessionAction> = Vec::new();
        if self.state == SessionState::Active {
            match topic_of(text, parsed) {
                Some(chat_id) => {
                    let mut chat_ids: Vec<ChatID> = Vec::new();
                    std::mem::swap(&mut self.chat_ids, &mut chat_ids);
                    let ghost before = chat_ids@;
                    if !holds(&chat_ids, &chat_id) {
                        chat_ids.push(chat_id.clone());
                        assert(topic_set(chat_ids@) =~= topic_set(before).insert(chat_id@)) by {
                            assert(chat_ids@[before.len() as int]@ == chat_id@);
                            assert forall|topic: Seq<char>| topic_set(before).contains(topic)
                                implies topic_set(chat_ids@).contains(topic) by {
                                let k = choose|k: int|
                                    0 <= k < before.len() && (#[trigger] before[k])@ == topic;
                                assert(chat_ids@[k]@ == topic);
                            }
                        }
                    } else {
                        assert(topic_set(chat_ids@) =~= topic_set(before).insert(chat_id@));
                    }
                    self.chat_ids = chat_ids;
                    actions.push(SessionAction::Subscribe(AddSub { chat_id, addr: self.addr }));
                    assert(self@.topics == old(self)@.topics.insert(chat_id@));
                },
                None => {},
            }
        }
        assert(commands(actions@) =~= on_text(old(self)@, text@, parsed).1);
        actions
    }

    /// Takes a frame from the client, or a failure of the transport, at time
    /// `now`.
    pub fn handle(&mut self, msg: Result<Frame, ProtocolError>, now: u64) -> (actions: Vec<
        SessionAction,
    >)
        ensures
            (final(self)@, commands(actions@)) == step(old(self)@, SessionEvent::Frame(msg, now)),
    {
        proof {
            use_type_invariant(&*self);
        }
        let mut actions: Vec<SessionAction> = Vec::new();
        if self.state != SessionState::Active {
            assert(commands(actions@) =~= seq![]);
            return actions;
        }
        match msg {
            Err(_) => {
                self.state = SessionState::Closing;
                actions.push(SessionAction::Stop);
                assert(commands(actions@) =~= seq![Command::Stop]);
            },
            Ok(Frame::Ping(payload)) => {
                self.hb = now;
                let ghost bytes = payload@;
                actions.push(SessionAction::Pong(payload));
                assert(commands(actions@) =~= seq![Command::Pong(bytes)]);
            },
            Ok(Frame::Pong(_)) => {
                self.hb = now;
                assert(commands(actions@) =~= seq![]);
            },
            Ok(Frame::Text(text)) => {
                let parsed = parse_uuid(text.as_str());
                return self.subscribe_parsed(text, parsed);
            },
            Ok(Frame::Binary(_)) => {
                assert(commands(actions@) =~= seq![]);
            },
            Ok(Frame::Close(reason)) => {
                self.state = SessionState::Closing;
                let ghost why = reason_view(reason);
                actions.push(SessionAction::Close(reason));
                actions.push(SessionAction::Stop);
                assert(commands(actions@) =~= seq![Command::Close(why), Command::Stop]);
            },
            Ok(Frame::Continuation) => {
                self.state = SessionState::Closing;
                actions.push(SessionAction::Stop);
                assert(commands(actions@) =~= seq![Command::Stop]);
            },
            Ok(Frame::Nop) => {
                assert(commands(actions@) =~= seq![]);
            },
        }
        actions
    }

    /// Takes a heartbeat tick at time `now`: gives up a client that has been
    /// silent for more than `CLIENT_TIMEOUT`, pings any other.
    pub fn heartbeat(&mut self, now: u64) -> (actions: Vec<SessionAction>)
        ensures
            (final(self)@, commands(actions@)) == step(old(self)@, SessionEvent::Tick(now)),
    {
        proof {
            use_type_invariant(&*self);
        }
        let mut actions: Vec<SessionAction> = Vec::new();
        if self.state != SessionState::Active {
            assert(commands(actions@) =~= seq![]);
            return actions;
        }
        let silence: u64 = if now >= self.hb {
            now - self.hb
        } else {
            0
        };
        if silence > CLIENT_TIMEOUT {
            let bye = self.farewell();
            self.state = SessionState::Closing;
            actions.push(SessionAction::Unsubscribe(bye));
            actions.push(SessionAction::Stop);
            assert(commands(actions@) =~= seq![
                Command::Unsubscribe(old(self)@.topics, old(self)@.addr),
                Command::Stop,
            ]);
        } else {
            actions.push(SessionAction::Ping);
            assert(commands(actions@) =~= seq![Command::Ping]);
        }
        actions
    }

    /// Takes a topic that the broker delivered: an active session forwards it
    /// to the client as a text frame.
    pub fn deliver(&self, chat_id: ChatID) -> (actions: Vec<SessionAction>)
        ensures
            (self@, commands(actions@)) == step(self@, SessionEvent::Delivery(chat_id)),
    {
        let mut actions: Vec<SessionAction> = Vec::new();
        if self.state == SessionState::Active {
            let ghost topic = chat_id@;
            actions.push(SessionAction::Text(chat_id.0));
            assert(commands(actions@) =~= seq![Command::Text(topic)]);
        } else {
            assert(commands(actions@) =~= seq![]);
        }
        actions
    }

    /// Ends the session: whatever came before, the broker is asked to take the
    /// session out of every topic it has joined.
    pub fn stopping(&mut self) -> (bye: Disconnect)
        ensures
            bye.topics() == old(self)@.topics,
            bye.addr == old(self)@.addr,
            final(self)@ == stopped(old(self)@),
            (final(self)@, seq![Command::Unsubscribe(bye.topics(), bye.addr)]) == step(
                old(self)@,
                SessionEvent::Stopping,
            ),
    {
        proof {
            use_type_invariant(&*self);
        }
        let bye = self.farewell();
        self.state = SessionState::Terminated;
        bye
    }
}

/// The session after a run of events, and everything it asked for on the
/// way, in order.
pub open spec fn run(s: SessionView, events: Seq<SessionEvent>) -> (SessionView, Seq<Command>)
    decreases events.len(),
{
    if events.len() == 0 {
        (s, seq![])
    } else {
        let before = run(s, events.drop_last());
        let last = step(before.0, events.last());
        (last.0, before.1 + last.1)
    }
}

/// Whether everything in `asked` that goes to the broker is in order for a
/// session at `addr` that has joined `topics`: each request carries `addr`,
/// each subscription is to a joined topic, and each unsubscription lists at
/// least the topics in `joined_first` and every topic subscribed to before it.
pub open spec fn reports_in_order(
    asked: Seq<Command>,
    addr: SubscriberHandle,
    joined_first: Set<Seq<char>>,
    topics: Set<Seq<char>>,
) -> bool {
    &&& forall|i: int|
        0 <= i < asked.len() ==> (#[trigger] asked[i] matches Command::Subscribe(topic, from)
            ==> from == addr && topics.contains(topic))
    &&& forall|i: int|
        0 <= i < asked.len() ==> (#[trigger] asked[i] matches Command::Unsubscribe(listed, from)
            ==> from == addr && joined_first.subset_of(listed) && listed.subset_of(topics)
            && forall|j: int|
            0 <= j < i ==> (#[trigger] asked[j] matches Command::Subscribe(topic, _)
                ==> listed.contains(topic)))
}

/// Whatever happens to a session, it keeps its address, never forgets a topic
/// it has joined, subscribes only to topics it records, and every time it
/// unsubscribes it lists every topic it had joined or subscribed to until
/// then. So the unsubscription that ends a session covers all its
/// subscriptions.
pub proof fn law_session_reports_its_topics(s: SessionView, events: Seq<SessionEvent>)
    ensures
        run(s, events).0.addr == s.addr,
        s.topics.subset_of(run(s, events).0.topics),
        reports_in_order(run(s, events).1, s.addr, s.topics, run(s, events).0.topics),
    decreases events.len(),
{
    if events.len() > 0 {
        law_session_reports_its_topics(s, events.drop_last());
        let before = run(s, events.drop_last());
        let last = step(before.0, events.last());
        let asked = before.1 + last.1;
        assert(before.0.topics.subset_of(last.0.topics));
        assert(last.0.addr == s.addr);
        assert forall|i: int| 0 <= i < asked.len() implies (#[trigger] asked[i] matches Command::Subscribe(
            topic,
            from,
        ) ==> from == s.addr && last.0.topics.contains(topic)) by {
            if i < before.1.len() {
                assert(asked[i] == before.1[i]);
            } else {
                assert(asked[i] == last.1[i - before.1.len()]);
            }
        }
        assert forall|i: int| 0 <= i < asked.len() implies (#[trigger] asked[i] matches Command::Unsubscribe(
            listed,
            from,
        ) ==> from == s.addr && s.topics.subset_of(listed) && listed.subset_of(last.0.topics)
            && forall|j: int|
            0 <= j < i ==> (#[trigger] asked[j] matches Command::Subscribe(topic, _)
                ==> listed.contains(topic))) by {
            if i < before.1.len() {
                assert(asked[i] == before.1[i]);
                match asked[i] {
                    Command::Unsubscribe(listed, _) => {
                        assert forall|j: int| 0 <= j < i implies (#[trigger] asked[j] matches Command::Subscribe(
                            topic,
                            _,
                        ) ==> listed.contains(topic)) by {
                            assert(asked[j] == before.1[j]);
                        }
                    },
                    _ => {},
                }
            } else {
                assert(asked[i] == last.1[i - before.1.len()]);
                match asked[i] {
                    Command::Unsubscribe(listed, _) => {
                        assert(listed == before.0.topics);
                        assert(i == before.1.len());
                        assert forall|j: int| 0 <= j < i implies (#[trigger] asked[j] matches Command::Subscribe(
                            topic,
                            _,
                        ) ==> listed.contains(topic)) by {
                            assert(asked[j] == before.1[j]);
                        }
                    },
                    _ => {},
                }
            }
        }
    }
}

/// The registry after the broker took, in order, the requests among `asked`.
pub open spec fn requested(registry: Registry, asked: Seq<Command>) -> Registry
    decreases asked.len(),
{
    if asked.len() == 0 {
        registry
    } else {
        let before = requested(registry, asked.drop_last());
        match asked.last() {
            Command::Subscribe(topic, addr) => subscribed(before, topic, addr),
            Command::Unsubscribe(topics, addr) => unsubscribed(before, topics, addr),
            _ => before,
        }
    }
}

/// Whether the session knows of every topic under which the registry holds
/// its address.
pub open spec fn covers(s: SessionView, registry: Registry) -> bool {
    forall|topic: Seq<char>| (#[trigger] registry[topic]).contains(s.addr) ==> s.topics.contains(topic)
}

/// Taking two runs of requests one after the other is taking them as one run.
proof fn lemma_requested_in_turn(registry: Registry, first: Seq<Command>, second: Seq<Command>)
    ensures
        requested(registry, first + second) == requested(requested(registry, first), second),
    decreases second.len(),
{
    if second.len() == 0 {
        assert(first + second =~= first);
    } else {
        assert((first + second).drop_last() =~= first + second.drop_last());
        assert((first + second).last() == second.last());
        lemma_requested_in_turn(registry, first, second.drop_last());
    }
}

/// What one event makes the session ask for keeps the registry covered, and
/// after the stop the registry holds the session's address nowhere.
proof fn lemma_step_keeps_cover(s: SessionView, registry: Registry, event: SessionEvent)
    requires
        covers(s, registry),
    ensures
        covers(step(s, event).0, requested(registry, step(s, event).1)),
        event is Stopping ==> forall|topic: Seq<char>|
            !(#[trigger] requested(registry, step(s, event).1)[topic]).contains(s.addr),
{
    let asked = step(s, event).1;
    let after = requested(registry, asked);
    reveal_with_fuel(requested, 3);
    if asked.len() == 1 {
        assert(asked.drop_last() =~= Seq::<Command>::empty());
    } else if asked.len() == 2 {
        assert(asked.drop_last() =~= seq![asked[0]]);
        assert(asked.drop_last().drop_last() =~= Seq::<Command>::empty());
    }
    assert forall|topic: Seq<char>| (#[trigger] after[topic]).contains(s.addr) implies step(
        s,
        event,
    ).0.topics.contains(topic) by {
        if registry[topic].contains(s.addr) {
            assert(s.topics.contains(topic));
        }
    }
    if event is Stopping {
        assert forall|topic: Seq<char>| !(#[trigger] after[topic]).contains(s.addr) by {
            if registry[topic].contains(s.addr) {
                assert(s.topics.contains(topic));
            }
        }
    }
}

/// Whatever happens to a session, the registry never holds its address under
/// a topic that the session does not know of.
pub proof fn law_session_covers_its_subscriptions(
    s: SessionView,
    registry: Registry,
    events: Seq<SessionEvent>,
)
    requires
        covers(s, registry),
    ensures
        covers(run(s, events).0, requested(registry, run(s, events).1)),
    decreases events.len(),
{
    if events.len() > 0 {
        let before = run(s, events.drop_last());
        law_session_covers_its_subscriptions(s, registry, events.drop_last());
        lemma_step_keeps_cover(before.0, requested(registry, before.1), events.last());
        lemma_requested_in_turn(registry, before.1, step(before.0, events.last()).1);
    }
}

/// No session is left behind: however a session's life went, once it has
/// been stopped and the broker has taken everything the session asked for,
/// the registry holds the session's address under no topic.
pub proof fn law_terminated_session_leaves_no_trace(
    s: SessionView,
    registry: Registry,
    events: Seq<SessionEvent>,
)
    requires
        covers(s, registry),
    ensures
        forall|topic: Seq<char>|
            !(#[trigger] requested(
                registry,
                run(s, events.push(SessionEvent::Stopping)).1,
            )[topic]).contains(s.addr),
        run(s, events.push(SessionEvent::Stopping)).0.state == SessionState::Terminated,
{
    let all = events.push(SessionEvent::Stopping);
    assert(all.drop_last() =~= events);
    assert(all.last() == SessionEvent::Stopping);
    let before = run(s, events);
    law_session_covers_its_subscriptions(s, registry, events);
    assert(before.0.addr == s.addr) by {
        law_session_reports_its_topics(s, events);
    }
    lemma_step_keeps_cover(before.0, requested(registry, before.1), SessionEvent::Stopping);
    lemma_requested_in_turn(registry, before.1, step(before.0, SessionEvent::Stopping).1);
}

/// The watchdog gives up a silent client: a heartbeat tick that finds an
/// active session whose client has been silent for more than `CLIENT_TIMEOUT`
/// unsubscribes the session from all its topics and stops it, and the stop
/// that follows leaves it terminated.
pub proof fn law_silent_session_is_given_up(s: SessionView, now: u64)
    requires
        s.state == SessionState::Active,
        elapsed(now, s.hb) > CLIENT_TIMEOUT,
    ensures
        step(s, SessionEvent::Tick(now)).1 == seq![
            Command::Unsubscribe(s.topics, s.addr),
            Command::Stop,
        ],
        step(s, SessionEvent::Tick(now)).0.state == SessionState::Closing,
        step(step(s, SessionEvent::Tick(now)).0, SessionEvent::Stopping).0.state
            == SessionState::Terminated,
        step(step(s, SessionEvent::Tick(now)).0, SessionEvent::Stopping).1 == seq![
            Command::Unsubscribe(s.topics, s.addr),
        ],
{
}

/// The watchdog spares a live client: a heartbeat tick changes a session only
/// if the session is active and its client has been silent for more than
/// `CLIENT_TIMEOUT`; any other active session is pinged and stays as it is.
pub proof fn law_watchdog_spares_the_living(s: SessionView, now: u64)
    ensures
        step(s, SessionEvent::Tick(now)).0 != s ==> s.state == SessionState::Active && elapsed(
            now,
            s.hb,
        ) > CLIENT_TIMEOUT,
        s.state == SessionState::Active && elapsed(now, s.hb) <= CLIENT_TIMEOUT ==> step(
            s,
            SessionEvent::Tick(now),
        ) == (s, seq![Command::Ping]),
{
}

/// A ping or a pong from the client at time `seen` keeps the session alive
/// through every heartbeat tick that comes no later than `CLIENT_TIMEOUT`
/// after it.
pub proof fn law_reply_keeps_alive(s: SessionView, payload: Vec<u8>, seen: u64, now: u64)
    requires
        s.state == SessionState::Active,
        elapsed(now, seen) <= CLIENT_TIMEOUT,
    ensures
        step(
            step(s, SessionEvent::Frame(Ok(Frame::Pong(payload)), seen)).0,
            SessionEvent::Tick(now),
        ).0.state == SessionState::Active,
        step(
            step(s, SessionEvent::Frame(Ok(Frame::Ping(payload)), seen)).0,
            SessionEvent::Tick(now),
        ).0.state == SessionState::Active,
        step(
            step(s, SessionEvent::Frame(Ok(Frame::Pong(payload)), seen)).0,
            SessionEvent::Tick(now),
        ).1 == seq![Command::Ping],
{
}

/// A text that is no UUID changes nothing and asks for nothing: no
/// subscription is made and the session stays open.
pub proof fn law_malformed_text_is_ignored(s: SessionView, text: String, now: u64)
    requires
        uuid_value(text@) is None,
    ensures
        step(s, SessionEvent::Frame(Ok(Frame::Text(text)), now)) == (s, Seq::<Command>::empty()),
{
}

impl WsChatSession {
    /// The topics that the session has joined, each of them once.
    pub fn chat_ids(&self) -> (list: &Vec<ChatID>)
        ensures
            topic_set(list@) == self@.topics,
            distinct_topics(list@),
    {
        proof {
            use_type_invariant(self);
        }
        &self.chat_ids
    }

    /// The time of the client's last sign of life.
    pub fn hb(&self) -> (seen: u64)
        ensures
            seen == self@.hb,
    {
        self.hb
    }

    /// The address under which the broker knows the session.
    pub fn addr(&self) -> (addr: SubscriberHandle)
        ensures
            addr == self@.addr,
    {
        self.addr
    }

    /// Where the session stands in its life.
    pub fn state(&self) -> (state: SessionState)
        ensures
            state == self@.state,
    {
        self.state
    }
}

} // verus!
