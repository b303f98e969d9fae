use std::time::Duration;

use video_chat::common::error::Error as CoreError;
use video_chat::sfu_client::events::{
    classify_incoming, event_target, track_payload, EventTarget, IncomingChat,
};
use video_chat::sfu_client::reconnection::{ReconnectStep, ReconnectionManager};
use video_chat::sfu_client::signals::{
    chat_message, client_answer_message, client_candidate_message, contains_str,
    join_failure_step, join_message, offer_message, on_signal, participant_id_at, ClientAction,
    JoinStep,
};
use video_chat::sfu_client::subscriptions::Subscriptions;
use video_chat::signaling::websocket::socket_ready;
use video_chat::signaling::messages::{
    IceCandidate, Message, MessageType, SdpType, SessionDescription,
};

#[test]
fn test_reconnection_manager_creation() {
    let manager = ReconnectionManager::new(5, Duration::from_millis(100));
    assert_eq!(manager.max_retries, 5);
    assert_eq!(manager.retry_delay, Duration::from_millis(100));
}

#[test]
fn test_reconnection_manager_with_different_params() {
    let manager = ReconnectionManager::new(10, Duration::from_secs(1));
    assert_eq!(manager.max_retries, 10);
    assert_eq!(manager.retry_delay, Duration::from_secs(1));
}

#[test]
fn test_stub() {
    assert!(true);
}

#[test]
fn reconnection_gives_up_after_max_retries() {
    let manager = ReconnectionManager::new(3, Duration::from_millis(1));
    assert!(matches!(manager.next_step(0), ReconnectStep::Attempt));
    assert!(matches!(manager.next_step(2), ReconnectStep::Attempt));
    match manager.next_step(3) {
        ReconnectStep::GiveUp(CoreError::Internal(m)) => {
            assert_eq!(m, "Max reconnection retries exceeded")
        }
        _ => panic!("expected to give up"),
    }
    let none = ReconnectionManager::new(0, Duration::from_millis(1));
    assert!(matches!(none.next_step(0), ReconnectStep::GiveUp(_)));
}

#[test]
fn subscriptions_send_each_request_once() {
    let mut subs = Subscriptions::new();
    let first = subs.subscribe("p1", "me1", 11).unwrap();
    assert_eq!(first.id, "sub-p1");
    assert_eq!(first.timestamp, 11);
    assert_eq!(
        first.payload,
        MessageType::Subscribe { target_id: "p1".into(), participant_id: "me1".into() }
    );
    assert!(subs.subscribe("p1", "me1", 11).is_none());
    assert!(subs.is_subscribed("p1"));
    subs.subscribe("p2", "me1", 12).unwrap();
    let mut all = subs.subscribed();
    all.sort();
    assert_eq!(all, vec!["p1".to_string(), "p2".to_string()]);

    let un = subs.unsubscribe("p1", 13).unwrap();
    assert_eq!(un.id, "unsub-p1");
    assert_eq!(un.timestamp, 13);
    assert_eq!(
        un.payload,
        MessageType::Unsubscribe { target_id: "p1".into(), participant_id: "me".into() }
    );
    assert!(subs.unsubscribe("p1", 13).is_none());
    assert!(!subs.is_subscribed("p1"));
    assert_eq!(subs.subscribed(), vec!["p2".to_string()]);
}

#[test]
fn client_message_builders() {
    assert_eq!(participant_id_at(1700000000123), "user-1700000000123");
    let j = join_message(5, "room".into(), "user-5".into());
    assert_eq!(j.id, "join-5");
    assert_eq!(j.timestamp, 5);
    assert_eq!(j.version, "1.0");
    assert_eq!(
        j.payload,
        MessageType::Join { room_id: "room".into(), participant_id: "user-5".into() }
    );
    assert_eq!(chat_message(6, "r".into(), "p".into(), "t".into()).id, "chat-6");
    let o = offer_message(7, "sdp".into(), "p".into());
    assert_eq!(o.id, "offer-7");
    assert_eq!(
        o.payload,
        MessageType::Offer {
            sdp: SessionDescription { sdp_type: SdpType::Offer, sdp: "sdp".into() },
            participant_id: "p".into()
        }
    );
    assert_eq!(client_answer_message(8, "a".into(), "p".into()).id, "answer-8");
    let c = IceCandidate { candidate: "c".into(), sdp_mid: Some("0".into()), sdp_m_line_index: Some(0) };
    assert_eq!(client_candidate_message(9, c, "p".into()).id, "ice-9");
}

#[test]
fn on_signal_actions() {
    let chat = Message::new(
        "c",
        MessageType::Chat { room_id: "r".into(), participant_id: "alice".into(), text: "hi: there".into() },
    );
    match on_signal(chat) {
        ClientAction::Notify(t) => assert_eq!(t, "alice:hi: there"),
        _ => panic!("expected a notification"),
    }
    let err = Message::new("e", MessageType::Error { code: 200, message: "SYSTEM_COMMAND:CLEAR_LOGS".into() });
    match on_signal(err) {
        ClientAction::Notify(t) => assert_eq!(t, "SYSTEM_COMMAND:CLEAR_LOGS"),
        _ => panic!("expected a notification"),
    }
    let offer = Message::new(
        "o",
        MessageType::Offer {
            sdp: SessionDescription { sdp_type: SdpType::Offer, sdp: "x".into() },
            participant_id: "sfu".into(),
        },
    );
    match on_signal(offer) {
        ClientAction::AnswerOffer { sdp, from } => {
            assert_eq!(sdp, "x");
            assert_eq!(from, "sfu");
        }
        _ => panic!("expected an offer"),
    }
    assert!(matches!(on_signal(Message::new("p", MessageType::Pong)), ClientAction::Ignore));
}

#[test]
fn join_failure_steps() {
    assert!(matches!(join_failure_step(0, "WebSocket not open"), JoinStep::WaitAndRetry));
    assert!(matches!(join_failure_step(18, "socket not open yet"), JoinStep::WaitAndRetry));
    assert!(matches!(join_failure_step(19, "not open"), JoinStep::WaitAndGiveUp));
    assert!(matches!(join_failure_step(0, "refused"), JoinStep::Stop));
    assert!(contains_str("abc", ""));
    assert!(contains_str("abc", "bc"));
    assert!(!contains_str("ab", "abc"));
}

#[test]
fn classify_incoming_chat() {
    match classify_incoming("participant_left:bob", Some("me")) {
        IncomingChat::ParticipantLeft(p) => assert_eq!(p, "bob"),
        _ => panic!("expected a departure"),
    }
    assert!(matches!(
        classify_incoming("sfu:SYSTEM_COMMAND:CLEAR_LOGS", None),
        IncomingChat::ClearLogs
    ));
    match classify_incoming("me:hello: world", Some("me")) {
        IncomingChat::Message { sender_id, text, display } => {
            assert_eq!(sender_id, "me");
            assert_eq!(text, "hello: world");
            assert_eq!(display, "You:hello: world");
        }
        _ => panic!("expected a message"),
    }
    match classify_incoming("bob:hi", Some("me")) {
        IncomingChat::Message { display, .. } => assert_eq!(display, "Participant:hi"),
        _ => panic!("expected a message"),
    }
    match classify_incoming("no colon", None) {
        IncomingChat::Message { sender_id, text, display } => {
            assert_eq!(sender_id, "Participant");
            assert_eq!(text, "no colon");
            assert_eq!(display, "Participant:no colon");
        }
        _ => panic!("expected a message"),
    }
}

#[test]
fn track_payload_formats() {
    assert_eq!(track_payload("t1", Some("stream-alice"), "video"), "t1|alice|video");
    assert_eq!(track_payload("t2", Some("other"), "audio"), "t2|participant|audio");
    assert_eq!(track_payload("t3", None, "audio"), "t3|participant|audio");
    assert_eq!(track_payload("t4", Some("stream-"), "video"), "t4||video");
}

#[test]
fn event_targets() {
    assert_eq!(event_target(true, Some("chrome-extension:")), EventTarget::ExtensionRuntime);
    assert_eq!(event_target(true, Some("https:")), EventTarget::Window);
    assert_eq!(event_target(false, Some("chrome-extension:")), EventTarget::Window);
    assert_eq!(event_target(true, None), EventTarget::Window);
}

#[test]
fn chat_round_trip_through_client() {
    let relayed = Message::new(
        "chat-1",
        MessageType::Chat { room_id: "r".into(), participant_id: "user-42".into(), text: "a:b".into() },
    );
    let notice = match on_signal(relayed) {
        ClientAction::Notify(t) => t,
        _ => panic!("expected a notification"),
    };
    match classify_incoming(&notice, Some("user-42")) {
        IncomingChat::Message { sender_id, text, display } => {
            assert_eq!(sender_id, "user-42");
            assert_eq!(text, "a:b");
            assert_eq!(display, "You:a:b");
        }
        _ => panic!("expected a message"),
    }
    match classify_incoming(&notice, Some("user-7")) {
        IncomingChat::Message { display, .. } => assert_eq!(display, "Participant:a:b"),
        _ => panic!("expected a message"),
    }
}

#[test]
fn client_ids_never_read_as_departures() {
    let id = participant_id_at(0);
    assert_eq!(id, "user-0");
    assert!(!id.contains(':'));
    let text = format!("{}:participant_left:x", id);
    assert!(matches!(classify_incoming(&text, None), IncomingChat::Message { .. }));
}

#[test]
fn reconnection_attempts_stop_at_max() {
    let manager = ReconnectionManager::new(4, Duration::from_millis(1));
    let mut attempts = 0u32;
    loop {
        match manager.next_step(attempts) {
            ReconnectStep::Attempt => attempts += 1,
            ReconnectStep::GiveUp(_) => break,
        }
    }
    assert_eq!(attempts, 4);
}

#[test]
fn unopened_socket_keeps_join_retrying() {
    let not_open = socket_ready(Some(false)).unwrap_err();
    assert_eq!(not_open.to_string(), "Network error: WebSocket not open");
    assert!(matches!(join_failure_step(3, &not_open.to_string()), JoinStep::WaitAndRetry));
    let missing = socket_ready(None).unwrap_err();
    assert_eq!(missing.to_string(), "Network error: WebSocket not initialized");
    assert!(matches!(join_failure_step(3, &missing.to_string()), JoinStep::Stop));
    assert!(socket_ready(Some(true)).is_ok());
}
