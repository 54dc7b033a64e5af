use ws_broker::broker::{Broker, BrokerMessage, Delivery};
use ws_broker::message::{AddSub, ChatID, Disconnect, Notification, SubscriberHandle, Trigger};

fn topic(text: &str) -> ChatID {
    ChatID(text.to_string())
}

fn join(broker: &mut Broker, text: &str, id: u64) {
    broker.add_sub(AddSub { chat_id: topic(text), addr: SubscriberHandle(id) });
}

fn leave(broker: &mut Broker, texts: &[&str], id: u64) {
    let chat_ids: Vec<ChatID> = texts.iter().map(|t| topic(t)).collect();
    broker.disconnect(Disconnect { chat_ids, addr: SubscriberHandle(id) });
}

fn fire(broker: &Broker, text: &str) -> Vec<Delivery> {
    broker.notify(Notification(text.to_string()))
}

fn handles(deliveries: &[Delivery]) -> Vec<u64> {
    let mut out: Vec<u64> = deliveries.iter().map(|d| d.addr.0).collect();
    out.sort();
    out
}

#[test]
fn subscribe_then_notify_reaches_the_subscriber() {
    let mut broker = Broker::new();
    join(&mut broker, "X", 7);
    let deliveries = fire(&broker, "X");
    assert_eq!(handles(&deliveries), vec![7]);
    assert_eq!(deliveries[0].chat_id, topic("X"));
}

#[test]
fn new_broker_has_no_subscribers() {
    let broker = Broker::new();
    assert!(fire(&broker, "X").is_empty());
    assert!(fire(&broker, "").is_empty());
}

#[test]
fn unsubscribe_after_subscribe_excludes_the_handle() {
    let mut broker = Broker::new();
    join(&mut broker, "T", 1);
    assert_eq!(handles(&fire(&broker, "T")), vec![1]);
    leave(&mut broker, &["T"], 1);
    assert!(fire(&broker, "T").is_empty());
}

#[test]
fn subscribing_twice_delivers_once() {
    let mut broker = Broker::new();
    join(&mut broker, "T", 1);
    join(&mut broker, "T", 1);
    let deliveries = fire(&broker, "T");
    assert_eq!(deliveries.len(), 1);
    assert_eq!(handles(&deliveries), vec![1]);
    leave(&mut broker, &["T"], 1);
    assert!(fire(&broker, "T").is_empty());
}

#[test]
fn notify_reaches_only_subscribers_of_the_topic() {
    let mut broker = Broker::new();
    join(&mut broker, "A", 1);
    join(&mut broker, "A", 2);
    join(&mut broker, "B", 3);
    join(&mut broker, "B", 1);
    let to_a = fire(&broker, "A");
    assert_eq!(handles(&to_a), vec![1, 2]);
    assert!(to_a.iter().all(|d| d.chat_id == topic("A")));
    let to_b = fire(&broker, "B");
    assert_eq!(handles(&to_b), vec![1, 3]);
    assert!(to_b.iter().all(|d| d.chat_id == topic("B")));
}

#[test]
fn topics_are_compared_exactly() {
    let mut broker = Broker::new();
    join(&mut broker, "abc", 1);
    assert!(fire(&broker, "ABC").is_empty());
    assert!(fire(&broker, "abc ").is_empty());
    assert!(fire(&broker, "ab").is_empty());
    assert_eq!(handles(&fire(&broker, "abc")), vec![1]);
}

#[test]
fn disconnect_removes_the_handle_from_every_listed_topic() {
    let mut broker = Broker::new();
    join(&mut broker, "A", 1);
    join(&mut broker, "B", 1);
    join(&mut broker, "C", 1);
    join(&mut broker, "A", 2);
    leave(&mut broker, &["A", "B", "C"], 1);
    assert_eq!(handles(&fire(&broker, "A")), vec![2]);
    assert!(fire(&broker, "B").is_empty());
    assert!(fire(&broker, "C").is_empty());
}

#[test]
fn disconnect_leaves_unlisted_topics_alone() {
    let mut broker = Broker::new();
    join(&mut broker, "A", 1);
    join(&mut broker, "B", 1);
    leave(&mut broker, &["A"], 1);
    assert!(fire(&broker, "A").is_empty());
    assert_eq!(handles(&fire(&broker, "B")), vec![1]);
}

#[test]
fn disconnect_from_topics_never_joined_succeeds() {
    let mut broker = Broker::new();
    join(&mut broker, "A", 2);
    leave(&mut broker, &["A", "Z", "Z"], 1);
    leave(&mut broker, &[], 2);
    assert_eq!(handles(&fire(&broker, "A")), vec![2]);
    assert!(fire(&broker, "Z").is_empty());
}

#[test]
fn disconnect_twice_is_harmless() {
    let mut broker = Broker::new();
    join(&mut broker, "A", 1);
    join(&mut broker, "A", 2);
    leave(&mut broker, &["A"], 1);
    leave(&mut broker, &["A"], 1);
    assert_eq!(handles(&fire(&broker, "A")), vec![2]);
}

#[test]
fn resubscribing_after_disconnect_works() {
    let mut broker = Broker::new();
    join(&mut broker, "A", 1);
    leave(&mut broker, &["A"], 1);
    join(&mut broker, "A", 1);
    assert_eq!(handles(&fire(&broker, "A")), vec![1]);
}

#[test]
fn notify_without_subscribers_is_dropped() {
    let mut broker = Broker::new();
    join(&mut broker, "A", 1);
    assert!(fire(&broker, "nobody").is_empty());
    leave(&mut broker, &["A"], 1);
    assert!(fire(&broker, "A").is_empty());
    assert_eq!(broker.handle(BrokerMessage::Notify(Notification("A".to_string()))).len(), 0);
}

#[test]
fn many_subscribers_each_get_one_delivery() {
    let mut broker = Broker::new();
    for id in 0..50u64 {
        join(&mut broker, "crowd", id);
        join(&mut broker, "crowd", id);
    }
    for id in (0..50u64).filter(|id| id % 2 == 1) {
        leave(&mut broker, &["crowd"], id);
    }
    let expected: Vec<u64> = (0..50u64).filter(|id| id % 2 == 0).collect();
    assert_eq!(handles(&fire(&broker, "crowd")), expected);
}

#[test]
fn synthetic_source_counts_from_one_to_nine_and_then_zero() {
    let mut broker = Broker::new();
    for digit in 0..10u64 {
        join(&mut broker, &digit.to_string(), digit);
    }
    join(&mut broker, "10", 99);
    let mut fired: Vec<String> = Vec::new();
    for _ in 0..21 {
        let deliveries = broker.send_id();
        assert_eq!(deliveries.len(), 1);
        assert_eq!(deliveries[0].chat_id.0, deliveries[0].addr.0.to_string());
        fired.push(deliveries[0].chat_id.0.clone());
    }
    let expected: Vec<String> = [
        "1", "2", "3", "4", "5", "6", "7", "8", "9", "0", "1", "2", "3", "4", "5", "6", "7", "8",
        "9", "0", "1",
    ]
    .iter()
    .map(|t| t.to_string())
    .collect();
    assert_eq!(fired, expected);
}

#[test]
fn synthetic_source_without_subscribers_delivers_nothing() {
    let mut broker = Broker::new();
    join(&mut broker, "2", 5);
    assert!(broker.send_id().is_empty());
    assert_eq!(handles(&broker.send_id()), vec![5]);
    assert!(broker.send_id().is_empty());
}

#[test]
fn mailbox_messages_are_taken_in_order() {
    let mut broker = Broker::new();
    let none = broker.handle(BrokerMessage::Subscribe(AddSub {
        chat_id: topic("T"),
        addr: SubscriberHandle(4),
    }));
    assert!(none.is_empty());
    let one = broker.handle(BrokerMessage::Notify(Notification("T".to_string())));
    assert_eq!(handles(&one), vec![4]);
    assert_eq!(one[0].chat_id, topic("T"));
    let none = broker.handle(BrokerMessage::Unsubscribe(Disconnect {
        chat_ids: vec![topic("T")],
        addr: SubscriberHandle(4),
    }));
    assert!(none.is_empty());
    assert!(broker.handle(BrokerMessage::Notify(Notification("T".to_string()))).is_empty());
    join(&mut broker, "1", 8);
    let tick = broker.handle(BrokerMessage::Tick(Trigger));
    assert_eq!(handles(&tick), vec![8]);
    assert_eq!(tick[0].chat_id, topic("1"));
}

#[test]
fn interleaved_sessions_leave_no_handle_behind() {
    let mut broker = Broker::new();
    let mailbox = vec![
        BrokerMessage::Subscribe(AddSub { chat_id: topic("A"), addr: SubscriberHandle(1) }),
        BrokerMessage::Subscribe(AddSub { chat_id: topic("A"), addr: SubscriberHandle(2) }),
        BrokerMessage::Subscribe(AddSub { chat_id: topic("B"), addr: SubscriberHandle(1) }),
        BrokerMessage::Notify(Notification("A".to_string())),
        BrokerMessage::Unsubscribe(Disconnect {
            chat_ids: vec![topic("A"), topic("B")],
            addr: SubscriberHandle(1),
        }),
        BrokerMessage::Subscribe(AddSub { chat_id: topic("B"), addr: SubscriberHandle(2) }),
    ];
    for msg in mailbox {
        broker.handle(msg);
    }
    assert_eq!(handles(&fire(&broker, "A")), vec![2]);
    assert_eq!(handles(&fire(&broker, "B")), vec![2]);
}

#[test]
fn notification_becomes_the_chat_id_of_its_text() {
    let chat_id = ChatID::from(Notification("hello".to_string()));
    assert_eq!(chat_id, topic("hello"));
    assert_ne!(chat_id, topic("Hello"));
    let copy = chat_id.clone();
    assert_eq!(copy, chat_id);
    assert_eq!(copy.0, "hello");
}

#[test]
fn handles_are_equal_when_they_name_the_same_session() {
    assert_eq!(SubscriberHandle(3), SubscriberHandle(3));
    assert_ne!(SubscriberHandle(3), SubscriberHandle(4));
}
