//! The broker: the one owner of the subscription registry.
//!
//! The broker takes one message at a time. A message either changes the
//! registry or asks for a fanout; a fanout is handed back as a list of
//! deliveries, which the runtime carries out. Nothing here can fail.

use crate::message::{AddSub, ChatID, Disconnect, Notification, SubscriberHandle, Trigger};
use std::collections::HashSet;
use vstd::hash_map::StringHashMap;
use vstd::prelude::*;
use vstd::std_specs::hash::axiom_spec_hash_keys_iter;
use vstd::std_specs::iter::IteratorSpec;

verus! {

broadcast use vstd::std_specs::hash::group_hash_axioms;

/// The registry as a total table: for every topic the set of handles that a
/// notification of the topic is delivered to. A topic that nobody subscribed
/// to has the empty set.
pub type Registry = Map<Seq<char>, Set<SubscriberHandle>>;

/// The registry in which no topic has a subscriber.
pub open spec fn empty_registry() -> Registry {
    Map::total(|topic: Seq<char>| Set::<SubscriberHandle>::empty())
}

/// The registry after `addr` joined `topic`.
pub open spec fn subscribed(registry: Registry, topic: Seq<char>, addr: SubscriberHandle) -> Registry {
    registry.insert(topic, registry[topic].insert(addr))
}

/// The registry after `addr` left every topic in `topics`.
pub open spec fn unsubscribed(
    registry: Registry,
    topics: Set<Seq<char>>,
    addr: SubscriberHandle,
) -> Registry {
    Map::total(
        |topic: Seq<char>|
            if topics.contains(topic) {
                registry[topic].remove(addr)
            } else {
                registry[topic]
            },
    )
}

/// The counter of the synthetic source after one tick: it runs through 1 to 9
/// and then starts again at 0.
pub open spec fn next_counter(counter: u8) -> u8 {
    if counter + 1 >= 10 {
        0
    } else {
        (counter + 1) as u8
    }
}

/// The decimal text of a one-digit number.
pub open spec fn digit_text(digit: u8) -> Seq<char> {
    seq![seq!['0', '1', '2', '3', '4', '5', '6', '7', '8', '9'][digit as int]]
}

/// One thing for the runtime to do: hand `chat_id` to the session at `addr`.
#[derive(Debug)]
pub struct Delivery {
    pub addr: SubscriberHandle,
    pub chat_id: ChatID,
}

/// The handles that a list of deliveries goes to, in order.
pub open spec fn recipients(deliveries: Seq<Delivery>) -> Seq<SubscriberHandle> {
    deliveries.map_values(|delivery: Delivery| delivery.addr)
}

/// Whether `deliveries` is a fanout of `topic` to exactly the handles in
/// `subscribers`: one delivery for each of them, none for anyone else, and each
/// carrying the topic.
pub open spec fn is_fanout(
    deliveries: Seq<Delivery>,
    topic: Seq<char>,
    subscribers: Set<SubscriberHandle>,
) -> bool {
    &&& recipients(deliveries).to_set() == subscribers
    &&& recipients(deliveries).no_duplicates()
    &&& deliveries.len() == subscribers.len()
    &&& forall|i: int| 0 <= i < deliveries.len() ==> (#[trigger] deliveries[i]).chat_id@ == topic
}

/// Whether `deliveries` is what a message owes that fired `topic` in
/// `registry`: a fanout of the topic, or nothing where no topic fired.
pub open spec fn fans_out(
    deliveries: Seq<Delivery>,
    topic: Option<Seq<char>>,
    registry: Registry,
) -> bool {
    match topic {
        Some(topic) => is_fanout(deliveries, topic, registry[topic]),
        None => deliveries.len() == 0,
    }
}

/// A message in the broker's mailbox.
#[derive(Debug)]
pub enum BrokerMessage {
    Subscribe(AddSub),
    Unsubscribe(Disconnect),
    Notify(Notification),
    Tick(Trigger),
}

impl BrokerMessage {
    /// The registry after the broker took this message.
    pub open spec fn applied(self, registry: Registry) -> Registry {
        match self {
            BrokerMessage::Subscribe(msg) => subscribed(registry, msg.chat_id@, msg.addr),
            BrokerMessage::Unsubscribe(msg) => unsubscribed(registry, msg.topics(), msg.addr),
            BrokerMessage::Notify(_) => registry,
            BrokerMessage::Tick(_) => registry,
        }
    }

    /// The synthetic source's counter after the broker took this message.
    pub open spec fn advanced(self, counter: u8) -> u8 {
        match self {
            BrokerMessage::Tick(_) => next_counter(counter),
            _ => counter,
        }
    }

    /// The topic whose subscribers this message reaches, if it asks for a
    /// fanout; `counter` is the synthetic source's counter before the message.
    pub open spec fn fired(self, counter: u8) -> Option<Seq<char>> {
        match self {
            BrokerMessage::Subscribe(_) => None,
            BrokerMessage::Unsubscribe(_) => None,
            BrokerMessage::Notify(msg) => Some(msg@),
            BrokerMessage::Tick(_) => Some(digit_text(next_counter(counter))),
        }
    }
}

/// The decimal text of a one-digit number, as a topic.
fn digit_topic(digit: u8) -> (chat_id: ChatID)
    requires
        digit < 10,
    ensures
        chat_id@ == digit_text(digit),
{
    let text: &str = match digit {
        0 => "0",
        1 => "1",
        2 => "2",
        3 => "3",
        4 => "4",
        5 => "5",
        6 => "6",
        7 => "7",
        8 => "8",
        _ => "9",
    };
    proof {
        reveal_strlit("0");
        reveal_strlit("1");
        reveal_strlit("2");
        reveal_strlit("3");
        reveal_strlit("4");
        reveal_strlit("5");
        reveal_strlit("6");
        reveal_strlit("7");
        reveal_strlit("8");
        reveal_strlit("9");
        assert(text@ =~= digit_text(digit));
    }
    ChatID(text.to_owned())
}

/// The broker's state: who subscribed to what, and the counter of the
/// synthetic notification source.
///
/// Each topic that was ever subscribed to has a slot of its own in `members`,
/// and `sessions` says which. A slot holds the numbers of the handles that are
/// subscribed to the topic.
pub struct Broker {
    sessions: StringHashMap<usize>,
    members: Vec<HashSet<u64>>,
    test_counter: u8,
}

/// The handles whose numbers are in `ids`.
spec fn handles_of(ids: Set<u64>) -> Set<SubscriberHandle> {
    Set::new(|handle: SubscriberHandle| ids.contains(handle.0))
}

/// The registry that a table of slots stands for.
spec fn table_registry(index: Map<Seq<char>, usize>, members: Seq<HashSet<u64>>) -> Registry {
    Map::total(
        |topic: Seq<char>|
            if index.contains_key(topic) {
                handles_of(members[index[topic] as int]@)
            } else {
                Set::<SubscriberHandle>::empty()
            },
    )
}

/// Every topic of the table has a slot, and no two topics share one.
spec fn table_sound(index: Map<Seq<char>, usize>, members: Seq<HashSet<u64>>) -> bool {
    &&& forall|topic: Seq<char>| #[trigger] index.contains_key(topic) ==> index[topic] < members.len()
    &&& forall|one: Seq<char>, other: Seq<char>|
        #[trigger] index.contains_key(one) && #[trigger] index.contains_key(other) && one != other
            ==> index[one] != index[other]
}

/// Adding a number to a slot adds its handle to the handles of the slot.
proof fn lemma_handles_with(ids: Set<u64>, addr: SubscriberHandle)
    ensures
        handles_of(ids.insert(addr.0)) == handles_of(ids).insert(addr),
        handles_of(Set::<u64>::empty()) == Set::<SubscriberHandle>::empty(),
{
    assert(handles_of(ids.insert(addr.0)) =~= handles_of(ids).insert(addr));
    assert(handles_of(Set::<u64>::empty()) =~= Set::<SubscriberHandle>::empty());
}

/// Taking a number out of a slot takes its handle out of the handles of the
/// slot.
proof fn lemma_handles_without(ids: Set<u64>, addr: SubscriberHandle)
    ensures
        handles_of(ids.remove(addr.0)) == handles_of(ids).remove(addr),
{
    assert(handles_of(ids.remove(addr.0)) =~= handles_of(ids).remove(addr));
}

/// The slot of `chat_id`, if it has one.
fn slot_of(sessions: &StringHashMap<usize>, chat_id: &ChatID) -> (slot: Option<usize>)
    ensures
        slot == (if sessions@.contains_key(chat_id@) {
            Some(sessions@[chat_id@])
        } else {
            None
        }),
{
    match sessions.get(chat_id.0.as_str()) {
        Some(slot) => Some(*slot),
        None => None,
    }
}

/// Adds `addr` to the subscribers of `chat_id`; a topic that has no slot yet
/// gets one.
fn insert_member(
    sessions: &mut StringHashMap<usize>,
    members: &mut Vec<HashSet<u64>>,
    chat_id: ChatID,
    addr: SubscriberHandle,
)
    requires
        table_sound(old(sessions)@, old(members)@),
    ensures
        table_sound(final(sessions)@, final(members)@),
        table_registry(final(sessions)@, final(members)@) == subscribed(
            table_registry(old(sessions)@, old(members)@),
            chat_id@,
            addr,
        ),
{
    let ghost topic = chat_id@;
    let ghost before = table_registry(sessions@, members@);
    match slot_of(sessions, &chat_id) {
        Some(slot) => {
            proof {
                lemma_handles_with(members@[slot as int]@, addr);
            }
            let subscribers = &mut members[slot];
            subscribers.insert(addr.0);
        },
        None => {
            proof {
                lemma_handles_with(Set::<u64>::empty(), addr);
            }
            let mut subscribers: HashSet<u64> = HashSet::new();
            subscribers.insert(addr.0);
            let slot = members.len();
            members.push(subscribers);
            sessions.insert(chat_id.0, slot);
        },
    }
    proof {
        let after = table_registry(sessions@, members@);
        assert(after[topic] == before[topic].insert(addr));
        assert forall|other: Seq<char>| other != topic implies #[trigger] after[other]
            == before[other] by {}
        assert(after =~= subscribed(before, topic, addr));
    }
}

/// Takes `addr` out of the subscribers of `chat_id`, if it is among them.
fn remove_member(
    sessions: &StringHashMap<usize>,
    members: &mut Vec<HashSet<u64>>,
    chat_id: &ChatID,
    addr: SubscriberHandle,
)
    requires
        table_sound(sessions@, old(members)@),
    ensures
        table_sound(sessions@, final(members)@),
        table_registry(sessions@, final(members)@) == table_registry(
            sessions@,
            old(members)@,
        ).insert(chat_id@, table_registry(sessions@, old(members)@)[chat_id@].remove(addr)),
{
    let ghost topic = chat_id@;
    let ghost before = table_registry(sessions@, members@);
    match slot_of(sessions, chat_id) {
        Some(slot) => {
            proof {
                lemma_handles_without(members@[slot as int]@, addr);
            }
            let subscribers = &mut members[slot];
            subscribers.remove(&addr.0);
        },
        None => {
            assert(before[topic].remove(addr) =~= before[topic]);
        },
    }
    proof {
        let after = table_registry(sessions@, members@);
        assert(after[topic] == before[topic].remove(addr));
        assert forall|other: Seq<char>| other != topic implies #[trigger] after[other]
            == before[other] by {}
        assert(after =~= before.insert(topic, before[topic].remove(addr)));
    }
}

impl View for Broker {
    type V = Registry;

    closed spec fn view(&self) -> Registry {
        table_registry(self.sessions@, self.members@)
    }
}

impl Broker {
    #[verifier::type_invariant]
    spec fn well_formed(&self) -> bool {
        table_sound(self.sessions@, self.members@)
    }

    /// The counter of the synthetic notification source.
    pub closed spec fn counter(&self) -> u8 {
        self.test_counter
    }

    /// A broker with no subscriber and the synthetic source at 0.
    pub fn new() -> (broker: Broker)
        ensures
            broker@ == empty_registry(),
            broker.counter() == 0,
    {
        let broker = Broker {
            sessions: StringHashMap::new(),
            members: Vec::new(),
            test_counter: 0,
        };
        assert(broker@ =~= empty_registry());
        broker
    }

    /// One delivery of `chat_id` for each of its subscribers, in no particular
    /// order; none if it has no subscriber.
    fn fanout(&self, chat_id: ChatID) -> (deliveries: Vec<Delivery>)
        ensures
            is_fanout(deliveries@, chat_id@, self@[chat_id@]),
    {
        proof {
            use_type_invariant(self);
        }
        let mut deliveries: Vec<Delivery> = Vec::new();
        match slot_of(&self.sessions, &chat_id) {
            None => {
                assert(recipients(deliveries@).to_set() =~= self@[chat_id@]);
            },
            Some(slot) => {
                let subscribers = &self.members[slot];
                for id in turn: subscribers.iter()
                    invariant
                        deliveries@.len() == turn.index(),
                        forall|k: int|
                            0 <= k < deliveries@.len() ==> (#[trigger] deliveries@[k]).addr.0
                                == *turn.seq()[k] && deliveries@[k].chat_id@ == chat_id@,
                {
                    deliveries.push(Delivery { addr: SubscriberHandle(*id), chat_id: chat_id.clone() });
                }
                proof {
                    axiom_spec_hash_keys_iter(subscribers);
                    let ids = subscribers.iter().remaining().unref();
                    let handles = recipients(deliveries@);
                    assert(handles.len() == ids.len());
                    assert forall|k: int| 0 <= k < handles.len() implies (#[trigger] handles[k]).0
                        == ids[k] by {
                        assert(deliveries@[k].addr.0 == ids[k]);
                    }
                    assert(handles.no_duplicates()) by {
                        assert forall|i: int, j: int|
                            0 <= i < handles.len() && 0 <= j < handles.len() && i != j implies handles[i]
                            != handles[j] by {
                            assert(ids[i] != ids[j]);
                        }
                    }
                    assert(handles.to_set() =~= handles_of(subscribers@)) by {
                        assert forall|h: SubscriberHandle| handles.contains(h) <==> handles_of(
                            subscribers@,
                        ).contains(h) by {
                            if handles.contains(h) {
                                let k = choose|k: int| 0 <= k < handles.len() && handles[k] == h;
                                assert(ids[k] == h.0);
                                assert(ids.to_set().contains(h.0));
                            }
                            if handles_of(subscribers@).contains(h) {
                                assert(ids.to_set().contains(h.0));
                                let k = choose|k: int| 0 <= k < ids.len() && ids[k] == h.0;
                                assert(handles[k] == h);
                            }
                        }
                    }
                    handles.unique_seq_to_set();
                }
            },
        }
        deliveries
    }

    /// Registers `msg.addr` under `msg.chat_id`. A handle that is already
    /// registered there stays registered once.
    pub fn add_sub(&mut self, msg: AddSub)
        ensures
            final(self)@ == subscribed(old(self)@, msg.chat_id@, msg.addr),
            final(self).counter() == old(self).counter(),
    {
        proof {
            use_type_invariant(&*self);
        }
        let mut sessions: StringHashMap<usize> = StringHashMap::new();
        let mut members: Vec<HashSet<u64>> = Vec::new();
        std::mem::swap(&mut self.sessions, &mut sessions);
        std::mem::swap(&mut self.members, &mut members);
        insert_member(&mut sessions, &mut members, msg.chat_id, msg.addr);
        self.members = members;
        self.sessions = sessions;
    }

    /// Removes `msg.addr` from every topic that `msg` lists. Topics under which
    /// it was not registered are left as they are.
    pub fn disconnect(&mut self, msg: Disconnect)
        ensures
            final(self)@ == unsubscribed(old(self)@, msg.topics(), msg.addr),
            final(self).counter() == old(self).counter(),
    {
        proof {
            use_type_invariant(&*self);
        }
        let mut sessions: StringHashMap<usize> = StringHashMap::new();
        let mut members: Vec<HashSet<u64>> = Vec::new();
        std::mem::swap(&mut self.sessions, &mut sessions);
        std::mem::swap(&mut self.members, &mut members);
        let addr = msg.addr;
        let ghost before = table_registry(sessions@, members@);
        let mut i: usize = 0;
        assert(before =~= unsubscribed(before, topic_set_of(msg.chat_ids@, 0), addr));
        while i < msg.chat_ids.len()
            invariant
                i <= msg.chat_ids.len(),
                table_sound(sessions@, members@),
                table_registry(sessions@, members@) == unsubscribed(
                    before,
                    topic_set_of(msg.chat_ids@, i as int),
                    addr,
                ),
            decreases msg.chat_ids.len() - i,
        {
            let chat_id = &msg.chat_ids[i];
            remove_member(&sessions, &mut members, chat_id, addr);
            proof {
                let seen = topic_set_of(msg.chat_ids@, i as int);
                let seen_now = topic_set_of(msg.chat_ids@, i + 1);
                assert(seen_now =~= seen.insert(chat_id@)) by {
                    assert(msg.chat_ids@[i as int]@ == chat_id@);
                }
                let after = table_registry(sessions@, members@);
                let want = unsubscribed(before, seen_now, addr);
                assert forall|topic: Seq<char>| #[trigger] after[topic] == want[topic] by {
                    if topic == chat_id@ {
                        assert(before[topic].remove(addr).remove(addr) =~= before[topic].remove(
                            addr,
                        ));
                    }
                }
                assert(after =~= want);
            }
            i += 1;
        }
        assert(topic_set_of(msg.chat_ids@, msg.chat_ids@.len() as int) =~= msg.topics());
        self.members = members;
        self.sessions = sessions;
    }

    /// Fans the notification out: one delivery of its topic for each handle
    /// that is subscribed to the topic now, and for no other handle. A topic
    /// without subscribers gives no delivery.
    pub fn notify(&self, msg: Notification) -> (deliveries: Vec<Delivery>)
        ensures
            is_fanout(deliveries@, msg@, self@[msg@]),
            self@[msg@].is_empty() ==> deliveries@.len() == 0,
    {
        let chat_id = ChatID::from(msg);
        let deliveries = self.fanout(chat_id);
        proof {
            if self@[msg@].is_empty() {
                assert(self@[msg@] =~= Set::<SubscriberHandle>::empty());
            }
        }
        deliveries
    }

    /// One tick of the synthetic source: advances the counter and fans out the
    /// topic whose name is the counter's new value in decimal.
    pub fn send_id(&mut self) -> (deliveries: Vec<Delivery>)
        ensures
            final(self)@ == old(self)@,
            final(self).counter() == next_counter(old(self).counter()),
            is_fanout(
                deliveries@,
                digit_text(final(self).counter()),
                old(self)@[digit_text(final(self).counter())],
            ),
    {
        proof {
            use_type_invariant(&*self);
        }
        let next: u8 = if self.test_counter >= 9 {
            0
        } else {
            self.test_counter + 1
        };
        self.test_counter = next;
        let chat_id = digit_topic(next % 10);
        self.fanout(chat_id)
    }

    /// Takes one message from the mailbox: changes the registry as the message
    /// says and hands back the deliveries it asks for.
    pub fn handle(&mut self, msg: BrokerMessage) -> (deliveries: Vec<Delivery>)
        ensures
            final(self)@ == msg.applied(old(self)@),
            final(self).counter() == msg.advanced(old(self).counter()),
            fans_out(deliveries@, msg.fired(old(self).counter()), old(self)@),
    {
        match msg {
            BrokerMessage::Subscribe(msg) => {
                self.add_sub(msg);
                Vec::new()
            },
            BrokerMessage::Unsubscribe(msg) => {
                self.disconnect(msg);
                Vec::new()
            },
            BrokerMessage::Notify(msg) => self.notify(msg),
            BrokerMessage::Tick(_) => self.send_id(),
        }
    }
}

/// The set of topics that the first `n` entries of a list of chat ids name.
pub open spec fn topic_set_of(chat_ids: Seq<ChatID>, n: int) -> Set<Seq<char>> {
    Set::new(|topic: Seq<char>| exists|i: int| 0 <= i < n && #[trigger] chat_ids[i]@ == topic)
}

/// The registry after the broker took the messages of `mailbox` one after the
/// other.
pub open spec fn applied_all(registry: Registry, mailbox: Seq<BrokerMessage>) -> Registry
    decreases mailbox.len(),
{
    if mailbox.len() == 0 {
        registry
    } else {
        mailbox.last().applied(applied_all(registry, mailbox.drop_last()))
    }
}

/// Once a handle has subscribed to a topic, the topic's subscribers include
/// it; once it has then unsubscribed from a set of topics that holds the topic,
/// they exclude it.
pub proof fn law_subscribe_then_unsubscribe(
    registry: Registry,
    topic: Seq<char>,
    addr: SubscriberHandle,
    topics: Set<Seq<char>>,
)
    requires
        topics.contains(topic),
    ensures
        subscribed(registry, topic, addr)[topic].contains(addr),
        !unsubscribed(subscribed(registry, topic, addr), topics, addr)[topic].contains(addr),
{
}

/// Subscribing a handle to a topic a second time changes nothing.
pub proof fn law_subscribe_idempotent(registry: Registry, topic: Seq<char>, addr: SubscriberHandle)
    ensures
        subscribed(subscribed(registry, topic, addr), topic, addr) == subscribed(
            registry,
            topic,
            addr,
        ),
{
    let once = subscribed(registry, topic, addr);
    assert(once[topic].insert(addr) =~= once[topic]);
    assert(subscribed(once, topic, addr) =~= once);
}

/// Unsubscribing a handle a second time from the same topics changes nothing.
pub proof fn law_unsubscribe_idempotent(
    registry: Registry,
    topics: Set<Seq<char>>,
    addr: SubscriberHandle,
)
    ensures
        unsubscribed(unsubscribed(registry, topics, addr), topics, addr) == unsubscribed(
            registry,
            topics,
            addr,
        ),
{
    let once = unsubscribed(registry, topics, addr);
    assert forall|topic: Seq<char>| #[trigger]
        unsubscribed(once, topics, addr)[topic] == once[topic] by {
        if topics.contains(topic) {
            assert(registry[topic].remove(addr).remove(addr) =~= registry[topic].remove(addr));
        }
    }
    assert(unsubscribed(once, topics, addr) =~= once);
}

/// A change of a handle's membership in one topic leaves the subscribers of
/// every other topic as they were.
pub proof fn law_topics_independent(
    registry: Registry,
    topic: Seq<char>,
    other: Seq<char>,
    addr: SubscriberHandle,
)
    requires
        other != topic,
    ensures
        subscribed(registry, other, addr)[topic] == registry[topic],
        unsubscribed(registry, set![other], addr)[topic] == registry[topic],
{
}

/// A fanout of a topic reaches a handle exactly if the handle is subscribed to
/// that topic; a subscription to any other topic earns it no delivery.
pub proof fn law_fanout_isolated(
    deliveries: Seq<Delivery>,
    registry: Registry,
    topic: Seq<char>,
    addr: SubscriberHandle,
)
    requires
        is_fanout(deliveries, topic, registry[topic]),
    ensures
        registry[topic].contains(addr) <==> exists|i: int|
            0 <= i < deliveries.len() && (#[trigger] deliveries[i]).addr == addr,
        !registry[topic].contains(addr) ==> forall|i: int|
            0 <= i < deliveries.len() ==> (#[trigger] deliveries[i]).addr != addr,
{
    let handles = recipients(deliveries);
    if registry[topic].contains(addr) {
        assert(handles.to_set().contains(addr));
        let i = choose|i: int| 0 <= i < handles.len() && handles[i] == addr;
        assert(deliveries[i].addr == addr);
    }
    assert forall|i: int| 0 <= i < deliveries.len() && (#[trigger] deliveries[i]).addr
        == addr implies registry[topic].contains(addr) by {
        assert(handles[i] == addr);
        assert(handles.to_set().contains(addr));
    }
}

/// Whether `msg` subscribes `addr` to `topic`.
pub open spec fn subscribes(msg: BrokerMessage, addr: SubscriberHandle, topic: Seq<char>) -> bool {
    msg matches BrokerMessage::Subscribe(request) && request.addr == addr && request.chat_id@ == topic
}

/// Whether `msg` unsubscribes `addr` from `topic`.
pub open spec fn unsubscribes(msg: BrokerMessage, addr: SubscriberHandle, topic: Seq<char>) -> bool {
    msg matches BrokerMessage::Unsubscribe(request) && request.addr == addr
        && request.topics().contains(topic)
}

/// A handle that is subscribed to a topic after a run of messages, and was not
/// before, owes it to a message of the run that subscribed it and that no later
/// message of the run undid.
pub proof fn lemma_subscription_has_cause(
    registry: Registry,
    mailbox: Seq<BrokerMessage>,
    addr: SubscriberHandle,
    topic: Seq<char>,
) -> (at: int)
    requires
        !registry[topic].contains(addr),
        applied_all(registry, mailbox)[topic].contains(addr),
    ensures
        0 <= at < mailbox.len(),
        subscribes(mailbox[at], addr, topic),
        forall|later: int| at < later < mailbox.len() ==> !unsubscribes(#[trigger] mailbox[later], addr, topic),
    decreases mailbox.len(),
{
    let last = mailbox.last();
    let earlier = mailbox.drop_last();
    if subscribes(last, addr, topic) {
        mailbox.len() - 1
    } else {
        assert(applied_all(registry, earlier)[topic].contains(addr));
        let at = lemma_subscription_has_cause(registry, earlier, addr, topic);
        assert(mailbox[at] == earlier[at]);
        assert forall|later: int| at < later < mailbox.len() implies !unsubscribes(
            #[trigger] mailbox[later],
            addr,
            topic,
        ) by {
            if later < mailbox.len() - 1 {
                assert(mailbox[later] == earlier[later]);
            }
        }
        at
    }
}

/// No handle is left behind: a handle that was in no topic before a run of
/// messages, and whose every subscription in the run is followed by a message
/// that unsubscribes it from that topic, is in no topic after the run, however
/// the messages of other handles are mixed in.
pub proof fn law_no_dangling_handle(
    registry: Registry,
    mailbox: Seq<BrokerMessage>,
    addr: SubscriberHandle,
)
    requires
        forall|topic: Seq<char>| !(#[trigger] registry[topic]).contains(addr),
        forall|at: int, topic: Seq<char>|
            0 <= at < mailbox.len() && #[trigger] subscribes(mailbox[at], addr, topic) ==> exists|
                later: int,
            |
                at < later < mailbox.len() && unsubscribes(#[trigger] mailbox[later], addr, topic),
    ensures
        forall|topic: Seq<char>| !(#[trigger] applied_all(registry, mailbox)[topic]).contains(addr),
{
    assert forall|topic: Seq<char>| !(#[trigger] applied_all(registry, mailbox)[topic]).contains(
        addr,
    ) by {
        if applied_all(registry, mailbox)[topic].contains(addr) {
            let at = lemma_subscription_has_cause(registry, mailbox, addr, topic);
            assert(subscribes(mailbox[at], addr, topic));
            let later = choose|later: int|
                at < later < mailbox.len() && unsubscribes(#[trigger] mailbox[later], addr, topic);
            assert(unsubscribes(mailbox[later], addr, topic));
        }
    }
}

/// Unsubscribing a handle from a set of topics that holds every topic it is
/// subscribed to leaves it in no topic at all.
pub proof fn law_disconnect_cleanup(
    registry: Registry,
    topics: Set<Seq<char>>,
    addr: SubscriberHandle,
)
    requires
        forall|topic: Seq<char>| (#[trigger] registry[topic]).contains(addr) ==> topics.contains(topic),
    ensures
        forall|topic: Seq<char>| !(#[trigger] unsubscribed(registry, topics, addr)[topic]).contains(addr),
        forall|topic: Seq<char>, other: SubscriberHandle|
            other != addr ==> (#[trigger] unsubscribed(registry, topics, addr)[topic].contains(other)
                <==> registry[topic].contains(other)),
{
    assert forall|topic: Seq<char>| !(#[trigger] unsubscribed(registry, topics, addr)[topic]).contains(
        addr,
    ) by {
        if !topics.contains(topic) {
            assert(!registry[topic].contains(addr));
        }
    }
}

/// A fanout of a topic that has no subscriber holds no delivery.
pub proof fn law_dead_letter(deliveries: Seq<Delivery>, topic: Seq<char>, registry: Registry)
    requires
        is_fanout(deliveries, topic, registry[topic]),
        registry[topic] == Set::<SubscriberHandle>::empty(),
    ensures
        deliveries.len() == 0,
{
}

} // verus!
