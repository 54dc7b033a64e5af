use ws_broker::message::{ChatID, SubscriberHandle};
use ws_broker::session::{
    CloseReason, Frame, ProtocolError, SessionAction, SessionState, WsChatSession, CLIENT_TIMEOUT,
    HEARTBEAT_INTERVAL,
};

const A: &str = "11111111-1111-1111-1111-111111111111";
const B: &str = "936da01f-9abd-4d9d-80c7-02af85c822a8";

fn session() -> WsChatSession {
    WsChatSession::new(SubscriberHandle(9), 1_000)
}

fn text(session: &mut WsChatSession, text: &str) -> Vec<SessionAction> {
    session.handle(Ok(Frame::Text(text.to_string())), 2_000)
}

fn topics(session: &WsChatSession) -> Vec<String> {
    session.chat_ids().iter().map(|c| c.0.clone()).collect()
}

#[test]
fn new_session_is_active_and_has_joined_nothing() {
    let session = session();
    assert_eq!(session.state(), SessionState::Active);
    assert_eq!(session.hb(), 1_000);
    assert_eq!(session.addr(), SubscriberHandle(9));
    assert!(session.chat_ids().is_empty());
}

#[test]
fn heartbeat_constants_are_25_and_10_seconds() {
    assert_eq!(HEARTBEAT_INTERVAL, 25_000_000_000);
    assert_eq!(CLIENT_TIMEOUT, 10_000_000_000);
}

#[test]
fn uuid_text_subscribes_and_is_recorded() {
    let mut session = session();
    let actions = text(&mut session, A);
    assert_eq!(actions.len(), 1);
    assert!(matches!(&actions[0], SessionAction::Subscribe(msg)
        if msg.chat_id.0 == A && msg.addr == SubscriberHandle(9)));
    assert_eq!(topics(&session), vec![A.to_string()]);
    assert_eq!(session.state(), SessionState::Active);
    assert_eq!(session.hb(), 1_000);
}

#[test]
fn uuid_text_subscribes_to_the_topic_exactly_as_sent() {
    let mut session = session();
    let sent = "AAAAAAAA-AAAA-AAAA-AAAA-AAAAAAAAAAAA";
    let actions = text(&mut session, sent);
    assert_eq!(actions.len(), 1);
    assert!(matches!(&actions[0], SessionAction::Subscribe(msg)
        if msg.chat_id.0 == sent && msg.addr == SubscriberHandle(9)));
    assert_eq!(topics(&session), vec![sent.to_string()]);

    let braced = "{936DA01F-9ABD-4D9D-80C7-02AF85C822A8}";
    let actions = text(&mut session, braced);
    assert!(matches!(&actions[0], SessionAction::Subscribe(msg) if msg.chat_id.0 == braced));
    assert_eq!(topics(&session), vec![sent.to_string(), braced.to_string()]);
}

#[test]
fn same_topic_is_recorded_once() {
    let mut session = session();
    assert_eq!(text(&mut session, B).len(), 1);
    assert_eq!(text(&mut session, A).len(), 1);
    assert_eq!(text(&mut session, B).len(), 1);
    assert_eq!(topics(&session), vec![B.to_string(), A.to_string()]);
}

#[test]
fn texts_that_differ_are_different_topics() {
    let mut session = session();
    assert_eq!(text(&mut session, B).len(), 1);
    assert_eq!(text(&mut session, &B.to_uppercase()).len(), 1);
    assert_eq!(topics(&session), vec![B.to_string(), B.to_uppercase()]);
}

#[test]
fn malformed_text_is_ignored() {
    let mut session = session();
    assert!(text(&mut session, "not-a-uuid").is_empty());
    assert!(text(&mut session, "").is_empty());
    assert_eq!(session.state(), SessionState::Active);
    assert!(session.chat_ids().is_empty());
    assert_eq!(session.hb(), 1_000);
}

#[test]
fn read_text_subscribes_to_the_text() {
    let mut session = session();
    let actions = session.subscribe_parsed(
        "A1A2A3A4-B1B2-C1C2-D1D2-D3D4D5D6D7D8".to_string(),
        Some(0xa1a2a3a4b1b2c1c2d1d2d3d4d5d6d7d8u128),
    );
    assert_eq!(actions.len(), 1);
    assert!(matches!(&actions[0], SessionAction::Subscribe(msg)
        if msg.chat_id.0 == "A1A2A3A4-B1B2-C1C2-D1D2-D3D4D5D6D7D8" && msg.addr == SubscriberHandle(9)));
    assert!(session.subscribe_parsed("not-a-uuid".to_string(), None).is_empty());
    assert_eq!(topics(&session), vec!["A1A2A3A4-B1B2-C1C2-D1D2-D3D4D5D6D7D8".to_string()]);
}

#[test]
fn ping_is_answered_and_counts_as_activity() {
    let mut session = session();
    let actions = session.handle(Ok(Frame::Ping(vec![1, 2, 3])), 5_000);
    assert_eq!(actions.len(), 1);
    assert!(matches!(&actions[0], SessionAction::Pong(payload) if payload == &vec![1, 2, 3]));
    assert_eq!(session.hb(), 5_000);
    assert_eq!(session.state(), SessionState::Active);
}

#[test]
fn pong_counts_as_activity_only() {
    let mut session = session();
    assert!(session.handle(Ok(Frame::Pong(vec![7])), 6_000).is_empty());
    assert_eq!(session.hb(), 6_000);
    assert_eq!(session.state(), SessionState::Active);
}

#[test]
fn binary_and_nop_frames_are_ignored() {
    let mut session = session();
    assert!(session.handle(Ok(Frame::Binary(vec![0, 1])), 7_000).is_empty());
    assert!(session.handle(Ok(Frame::Nop), 7_000).is_empty());
    assert_eq!(session.hb(), 1_000);
    assert_eq!(session.state(), SessionState::Active);
}

#[test]
fn close_frame_is_echoed_and_stops_the_session() {
    let mut session = session();
    let reason = CloseReason { code: 1000, description: Some("bye".to_string()) };
    let actions = session.handle(Ok(Frame::Close(Some(reason))), 3_000);
    assert_eq!(actions.len(), 2);
    assert!(matches!(&actions[0], SessionAction::Close(Some(reason))
        if reason.code == 1000 && reason.description.as_deref() == Some("bye")));
    assert!(matches!(actions[1], SessionAction::Stop));
    assert_eq!(session.state(), SessionState::Closing);

    let mut session = self::session();
    let actions = session.handle(Ok(Frame::Close(None)), 3_000);
    assert!(matches!(actions[0], SessionAction::Close(None)));
    assert!(matches!(actions[1], SessionAction::Stop));
}

#[test]
fn continuation_frame_stops_the_session() {
    let mut session = session();
    let actions = session.handle(Ok(Frame::Continuation), 3_000);
    assert_eq!(actions.len(), 1);
    assert!(matches!(actions[0], SessionAction::Stop));
    assert_eq!(session.state(), SessionState::Closing);
}

#[test]
fn transport_error_stops_the_session() {
    let mut session = session();
    let actions = session.handle(Err(ProtocolError), 3_000);
    assert_eq!(actions.len(), 1);
    assert!(matches!(actions[0], SessionAction::Stop));
    assert_eq!(session.state(), SessionState::Closing);
}

#[test]
fn heartbeat_pings_a_client_within_the_timeout() {
    let mut session = session();
    let actions = session.heartbeat(1_000 + CLIENT_TIMEOUT);
    assert_eq!(actions.len(), 1);
    assert!(matches!(actions[0], SessionAction::Ping));
    assert_eq!(session.state(), SessionState::Active);
    assert_eq!(session.hb(), 1_000);
}

#[test]
fn heartbeat_gives_up_a_client_beyond_the_timeout() {
    let mut session = session();
    text(&mut session, A);
    text(&mut session, B);
    let actions = session.heartbeat(1_001 + CLIENT_TIMEOUT);
    assert_eq!(actions.len(), 2);
    match &actions[0] {
        SessionAction::Unsubscribe(msg) => {
            assert_eq!(msg.addr, SubscriberHandle(9));
            assert_eq!(msg.chat_ids, vec![ChatID(A.to_string()), ChatID(B.to_string())]);
        }
        other => panic!("unexpected action {:?}", other),
    }
    assert!(matches!(actions[1], SessionAction::Stop));
    assert_eq!(session.state(), SessionState::Closing);
}

#[test]
fn heartbeat_before_the_last_activity_pings() {
    let mut session = session();
    let actions = session.heartbeat(0);
    assert!(matches!(actions[0], SessionAction::Ping));
    assert_eq!(session.state(), SessionState::Active);
}

#[test]
fn reply_to_ping_keeps_the_session_alive() {
    let mut session = WsChatSession::new(SubscriberHandle(1), 0);
    let mut now = 0;
    for _ in 0..5 {
        now += HEARTBEAT_INTERVAL - CLIENT_TIMEOUT;
        assert!(session.handle(Ok(Frame::Pong(Vec::new())), now).is_empty());
        now += CLIENT_TIMEOUT;
        let actions = session.heartbeat(now);
        assert!(matches!(actions[0], SessionAction::Ping));
        assert_eq!(session.state(), SessionState::Active);
    }
}

#[test]
fn silent_session_is_terminated_at_the_next_tick() {
    let mut session = WsChatSession::new(SubscriberHandle(1), 0);
    text(&mut session, A);
    let actions = session.heartbeat(HEARTBEAT_INTERVAL);
    assert!(matches!(&actions[0], SessionAction::Unsubscribe(msg) if msg.chat_ids.len() == 1));
    assert!(matches!(actions[1], SessionAction::Stop));
    let bye = session.stopping();
    assert_eq!(bye.chat_ids, vec![ChatID(A.to_string())]);
    assert_eq!(session.state(), SessionState::Terminated);
}

#[test]
fn delivery_is_forwarded_as_text() {
    let session = session();
    let actions = session.deliver(ChatID("X".to_string()));
    assert_eq!(actions.len(), 1);
    assert!(matches!(&actions[0], SessionAction::Text(text) if text == "X"));
}

#[test]
fn stopping_reports_every_joined_topic() {
    let mut session = session();
    text(&mut session, A);
    text(&mut session, B);
    session.handle(Err(ProtocolError), 3_000);
    let bye = session.stopping();
    assert_eq!(bye.addr, SubscriberHandle(9));
    assert_eq!(bye.chat_ids, vec![ChatID(A.to_string()), ChatID(B.to_string())]);
    assert_eq!(session.state(), SessionState::Terminated);
    assert_eq!(topics(&session), vec![A.to_string(), B.to_string()]);
}

#[test]
fn stopping_without_topics_reports_none() {
    let mut session = session();
    let bye = session.stopping();
    assert!(bye.chat_ids.is_empty());
    assert_eq!(bye.addr, SubscriberHandle(9));
    assert_eq!(session.state(), SessionState::Terminated);
}

#[test]
fn session_that_is_not_active_reacts_to_nothing() {
    let mut session = session();
    session.handle(Ok(Frame::Continuation), 3_000);
    assert!(text(&mut session, A).is_empty());
    assert!(session.handle(Ok(Frame::Ping(vec![1])), 4_000).is_empty());
    assert!(session.handle(Ok(Frame::Close(None)), 4_000).is_empty());
    assert!(session.handle(Err(ProtocolError), 4_000).is_empty());
    assert!(session.heartbeat(u64::MAX).is_empty());
    assert!(session.deliver(ChatID("X".to_string())).is_empty());
    assert!(session.subscribe_parsed(A.to_string(), Some(1)).is_empty());
    assert_eq!(session.hb(), 1_000);
    assert!(session.chat_ids().is_empty());
    assert_eq!(session.state(), SessionState::Closing);
    session.stopping();
    assert!(session.heartbeat(u64::MAX).is_empty());
    assert!(session.deliver(ChatID("X".to_string())).is_empty());
    assert_eq!(session.state(), SessionState::Terminated);
}
