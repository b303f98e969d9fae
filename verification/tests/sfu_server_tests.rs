use video_chat::sdp::NegotiationManager;
use video_chat::sfu_server::bandwidth::BandwidthEstimator;
use video_chat::sfu_server::rooms::{RoomManager, ServerRoom};
use video_chat::sfu_server::session::{
    answer_message, clear_logs_message, frame_step, pong_message, renegotiation_offer, FrameStep,
    server_candidate_message, SessionAction, SessionState,
};
use video_chat::sfu_server::simulcast::SimulcastManager;
use video_chat::sfu_server::subscribers::{header_rewrite, next_keyframe_request, SubscriberTable};
use video_chat::signaling::messages::{
    IceCandidate, Message, MessageType, SdpType, SessionDescription,
};

#[test]
fn test_room_manager_creation() {
    let manager: RoomManager<()> = RoomManager::new();
    assert!(manager.room_summaries().is_empty());
}

#[test]
fn test_room_creation() {
    let room: ServerRoom<()> = ServerRoom { id: "test-room".to_string(), participants: Vec::new() };
    assert_eq!(room.id, "test-room");
    assert!(room.participants.is_empty());
}

#[test]
fn test_join_room() {
    let mut manager: RoomManager<Option<u8>> = RoomManager::new();
    manager.join_room("room1".to_string(), "participant1".to_string(), None);
    assert!(manager.contains_room("room1"));
}

#[test]
fn test_leave_room() {
    let mut manager: RoomManager<Option<u8>> = RoomManager::new();
    manager.join_room("room1".to_string(), "participant1".to_string(), None);
    manager.leave_room("room1", "participant1");
    assert!(!manager.contains_room("room1"));
}

#[test]
fn test_multiple_participants() {
    let mut manager: RoomManager<Option<u8>> = RoomManager::new();
    manager.join_room("room1".to_string(), "p1".to_string(), None);
    manager.join_room("room1".to_string(), "p2".to_string(), None);
    manager.join_room("room1".to_string(), "p3".to_string(), None);
    let summaries = manager.room_summaries();
    assert_eq!(summaries, vec![("room1".to_string(), 3)]);
}

#[test]
fn test_room_cleanup_when_empty() {
    let mut manager: RoomManager<Option<u8>> = RoomManager::new();
    manager.join_room("room1".to_string(), "p1".to_string(), None);
    manager.join_room("room1".to_string(), "p2".to_string(), None);
    manager.leave_room("room1", "p1");
    manager.leave_room("room1", "p2");
    assert!(!manager.contains_room("room1"));
}

#[test]
fn rooms_keep_data_and_list_others() {
    let mut manager: RoomManager<u32> = RoomManager::new();
    manager.join_room("r".to_string(), "a".to_string(), 1);
    manager.join_room("r".to_string(), "b".to_string(), 2);
    manager.join_room("s".to_string(), "c".to_string(), 3);
    manager.join_room("r".to_string(), "a".to_string(), 10);
    assert_eq!(manager.participant("r", "a"), Some(&10));
    assert_eq!(manager.participant("r", "c"), None);
    assert_eq!(manager.participant("x", "a"), None);
    let mut others = manager.get_participants_except("r", "a");
    others.sort();
    assert_eq!(others, vec!["b".to_string()]);
    let all = manager.members_except("r", None);
    assert_eq!(all.len(), 2);
    assert!(manager.get_participants_except("nowhere", "a").is_empty());
    manager.leave_room("r", "nobody");
    manager.leave_room("nowhere", "a");
    assert_eq!(manager.room_summaries().len(), 2);
}

#[test]
fn leave_undoes_join_in_new_room() {
    let mut manager: RoomManager<u8> = RoomManager::new();
    manager.join_room("keep".to_string(), "k".to_string(), 0);
    manager.join_room("fresh".to_string(), "p".to_string(), 7);
    manager.leave_room("fresh", "p");
    assert_eq!(manager.room_summaries(), vec![("keep".to_string(), 1)]);
}

#[test]
fn sanitize_sdp_drops_simulcast_and_fixes_audio() {
    let sdp = "v=0\r\nm=audio 9 UDP/TLS/RTP/SAVPF 111\r\na=recvonly\r\na=rid:h send\r\nm=video 9 UDP/TLS/RTP/SAVPF 96\r\na=recvonly\r\na=simulcast:send h;m\r\na=rid:m send\r\n";
    let out = NegotiationManager::sanitize_sdp(sdp);
    assert_eq!(
        out,
        "v=0\r\nm=audio 9 UDP/TLS/RTP/SAVPF 111\r\na=sendrecv\r\nm=video 9 UDP/TLS/RTP/SAVPF 96\r\na=recvonly\r\n"
    );
    assert_eq!(NegotiationManager::sanitize_sdp(&out), out);
}

#[test]
fn sanitize_sdp_edge_cases() {
    assert_eq!(NegotiationManager::sanitize_sdp(""), "");
    assert_eq!(NegotiationManager::sanitize_sdp("v=0"), "v=0");
    assert_eq!(NegotiationManager::sanitize_sdp("a=rid:x\r\n"), "\r\n");
    assert_eq!(NegotiationManager::sanitize_sdp("a=recvonly\r\n"), "a=recvonly\r\n");
    assert_eq!(
        NegotiationManager::sanitize_sdp("m=audio\r\nm=video\r\na=recvonly"),
        "m=audio\r\nm=video\r\na=recvonly"
    );
}

#[test]
fn simulcast_select_layer() {
    assert_eq!(SimulcastManager::select_layer(&[0, 1, 2], 2_000_000), 2);
    assert_eq!(SimulcastManager::select_layer(&[0, 1, 2], 1_500_000), 2);
    assert_eq!(SimulcastManager::select_layer(&[0, 1, 2], 1_499_999), 1);
    assert_eq!(SimulcastManager::select_layer(&[0, 1, 2], 500_000), 1);
    assert_eq!(SimulcastManager::select_layer(&[0, 1, 2], 0), 0);
    assert_eq!(SimulcastManager::select_layer(&[1, 2], 0), 1);
    assert_eq!(SimulcastManager::select_layer(&[0, 2], 1_000_000), 0);
    assert_eq!(SimulcastManager::select_layer(&[], 1_000_000), 0);
}

#[test]
fn subscriber_table_add_and_remove() {
    let mut table: SubscriberTable<&str> = SubscriberTable::new();
    assert!(table.subscribers("t").is_none());
    table.add_subscriber("t".to_string(), "o1".to_string(), "x", 1, 96);
    table.add_subscriber("t".to_string(), "o2".to_string(), "y", 2, 97);
    table.add_subscriber("t".to_string(), "o1".to_string(), "z", 3, 98);
    let ids: Vec<String> = table.subscribers("t").unwrap().iter().map(|s| s.output_id.clone()).collect();
    assert_eq!(ids, vec!["o1", "o2", "o1"]);
    table.remove_subscriber("t", "o1");
    let left = table.subscribers("t").unwrap();
    assert_eq!(left.len(), 1);
    assert_eq!(left[0].output_id, "o2");
    assert_eq!(left[0].ssrc, 2);
    assert_eq!(left[0].payload_type, 97);
    table.remove_subscriber("nothing", "o2");
    assert!(table.subscribers("nothing").is_none());
}

#[test]
fn bandwidth_estimate_counts_recent_bytes() {
    let mut est = BandwidthEstimator::new();
    assert!(est.estimate_fits());
    assert_eq!(est.estimate_bandwidth(), 0);
    est.add_packet(1000);
    est.add_packet(500);
    assert!(est.estimate_fits());
    assert_eq!(est.estimate_bandwidth(), 12_000);
    est.retain_recent(u64::MAX);
    assert_eq!(est.estimate_bandwidth(), 0);
}

fn msg(id: &str, payload: MessageType) -> Message {
    Message::new(id, payload)
}

#[test]
fn session_flow() {
    let mut s = SessionState::new();
    let offer = msg(
        "o1",
        MessageType::Offer {
            sdp: SessionDescription { sdp_type: SdpType::Offer, sdp: "v=0".into() },
            participant_id: "p".into(),
        },
    );
    assert!(matches!(s.on_message(offer.clone()), SessionAction::Ignore));

    let join = msg("j", MessageType::Join { room_id: "r".into(), participant_id: "p".into() });
    match s.on_message(join) {
        SessionAction::Join { room_id, participant_id } => {
            assert_eq!(room_id, "r");
            assert_eq!(participant_id, "p");
        }
        _ => panic!("expected a join"),
    }
    assert_eq!(s.current_room.as_deref(), Some("r"));

    match s.on_message(offer) {
        SessionAction::HandleOffer { room_id, participant_id, sdp, answer_id } => {
            assert_eq!(room_id, "r");
            assert_eq!(participant_id, "p");
            assert_eq!(sdp, "v=0");
            assert_eq!(answer_id, "answer-o1");
        }
        _ => panic!("expected an offer"),
    }

    let chat = msg(
        "c9",
        MessageType::Chat { room_id: "r".into(), participant_id: "p".into(), text: "hi".into() },
    );
    match s.on_message(chat) {
        SessionAction::Broadcast { room_id, message } => {
            assert_eq!(room_id, "r");
            assert_eq!(message.id, "chat-c9");
            assert_eq!(
                message.payload,
                MessageType::Chat { room_id: "r".into(), participant_id: "p".into(), text: "hi".into() }
            );
        }
        _ => panic!("expected a broadcast"),
    }
    assert!(matches!(s.on_message(pong_message()), SessionAction::Ignore));
    assert_eq!(s.on_disconnect(), Some(("r".to_string(), "p".to_string())));
    assert_eq!(SessionState::new().on_disconnect(), None);
}

#[test]
fn server_messages() {
    let a = answer_message("answer-1", "sdp".into());
    assert_eq!(a.id, "answer-1");
    assert_eq!(
        a.payload,
        MessageType::Answer {
            sdp: SessionDescription { sdp_type: SdpType::Answer, sdp: "sdp".into() },
            participant_id: "sfu".into()
        }
    );
    assert_eq!(renegotiation_offer(42, "x".into()).id, "offer-renegotiate-42");
    assert_eq!(renegotiation_offer(-7, "x".into()).id, "offer-renegotiate--7");
    assert_eq!(
        server_candidate_message(i64::MIN, IceCandidate { candidate: "c".into(), sdp_mid: None, sdp_m_line_index: None }).id,
        "ice--9223372036854775808"
    );
    let c = IceCandidate { candidate: "cand".into(), sdp_mid: None, sdp_m_line_index: Some(1) };
    let m = server_candidate_message(7, c.clone());
    assert_eq!(m.id, "ice-7");
    assert_eq!(m.payload, MessageType::IceCandidate { candidate: c, participant_id: "sfu".into() });
    let clear = clear_logs_message();
    assert_eq!(clear.id, "system-clear");
    assert_eq!(
        clear.payload,
        MessageType::Error { code: 200, message: "SYSTEM_COMMAND:CLEAR_LOGS".into() }
    );
    assert_eq!(pong_message().payload, MessageType::Pong);
}

use video_chat::sfu_server::negotiation::{
    choose_payload_type, eq_ignore_ascii_case, output_track_ids, BindingStep, CodecParams,
    RenegotiationDebounce, TrackBinding,
};

fn codec(mime: &str, fmtp: &str, pt: u8) -> CodecParams {
    CodecParams { mime_type: mime.to_string(), sdp_fmtp_line: fmtp.to_string(), payload_type: pt }
}

#[test]
fn output_track_naming() {
    let (id, stream) = output_track_ids("user-1", "track-a");
    assert_eq!(id, "user-1_track-a");
    assert_eq!(stream, "stream-user-1");
    assert_eq!(
        video_chat::sfu_client::events::track_payload("x", Some(&stream), "video"),
        "x|user-1|video"
    );
}

#[test]
fn ascii_case_comparison() {
    assert!(eq_ignore_ascii_case("video/VP8", "VIDEO/vp8"));
    assert!(!eq_ignore_ascii_case("video/VP8", "video/VP9"));
    assert!(!eq_ignore_ascii_case("a", "ab"));
    assert!(eq_ignore_ascii_case("", ""));
    assert!(!eq_ignore_ascii_case("é", "É"));
}

#[test]
fn payload_type_choice() {
    let codecs = vec![
        codec("video/H264", "profile=1", 102),
        codec("video/h264", "profile=2", 103),
        codec("video/VP8", "", 96),
    ];
    assert_eq!(choose_payload_type(&codecs, "video/H264", "profile=2", 0), 103);
    assert_eq!(choose_payload_type(&codecs, "video/H264", "profile=9", 0), 102);
    assert_eq!(choose_payload_type(&codecs, "video/H264", "profile=9", 7), 7);
    assert_eq!(choose_payload_type(&codecs, "video/h264", "", 7), 102);
    assert_eq!(choose_payload_type(&codecs, "audio/opus", "", 0), 0);
    assert_eq!(choose_payload_type(&vec![], "audio/opus", "", 5), 5);
}

#[test]
fn track_binding_steps() {
    let codecs = vec![codec("audio/opus", "minptime=10", 111)];
    let mut b = TrackBinding::new();
    assert!(matches!(b.observe(None, &codecs, "audio/opus", "minptime=10", true), BindingStep::PollAgain));
    match b.observe(Some(1234), &codecs, "audio/opus", "minptime=10", true) {
        BindingStep::Ready { ssrc, payload_type } => {
            assert_eq!(ssrc, 1234);
            assert_eq!(payload_type, 111);
        }
        _ => panic!("expected ready"),
    }

    let mut b = TrackBinding::new();
    for _ in 0..49 {
        assert!(matches!(b.observe(Some(9), &vec![], "video/VP8", "", true), BindingStep::PollAgain));
    }
    assert!(matches!(b.observe(Some(9), &vec![], "video/VP8", "", true), BindingStep::Abort));

    let mut b = TrackBinding::new();
    for _ in 0..49 {
        assert!(matches!(b.observe(Some(9), &vec![], "video/VP8", "", false), BindingStep::PollAgain));
    }
    match b.observe(Some(9), &vec![], "video/VP8", "", false) {
        BindingStep::Ready { ssrc, payload_type } => assert_eq!((ssrc, payload_type), (9, 0)),
        _ => panic!("expected ready without payload type"),
    }

    let mut b = TrackBinding::new();
    for _ in 0..49 {
        b.observe(None, &codecs, "audio/opus", "", false);
    }
    assert!(matches!(b.observe(None, &codecs, "audio/opus", "", false), BindingStep::Abort));
}

#[test]
fn renegotiation_debounce() {
    let mut d = RenegotiationDebounce::new();
    let first = d.begin();
    assert!(d.is_current(first));
    let second = d.begin();
    assert!(!d.is_current(first));
    assert!(d.is_current(second));
    let mut w = RenegotiationDebounce { generation: u64::MAX };
    assert_eq!(w.begin(), 0);
}

#[test]
fn bandwidth_packets_at_given_times() {
    let mut est = BandwidthEstimator::new();
    est.add_packet_at(100, 0, 0);
    est.add_packet_at(200, 500_000_000, 500_000_000);
    assert_eq!(est.estimate_bandwidth(), 2_400);
    // a reading that went back counts as the last stored time
    est.add_packet_at(50, 10, 600_000_000);
    assert_eq!(est.estimate_bandwidth(), 2_800);
    // a second later the first packets have left the window
    est.add_packet_at(1, 1_500_000_001, 1_500_000_001);
    assert_eq!(est.estimate_bandwidth(), 8);
    // a packet whose second reading is more than a second later is dropped too
    est.add_packet_at(7, 1_600_000_000, 2_600_000_001);
    assert_eq!(est.estimate_bandwidth(), 0);
}

#[test]
fn forwarding_decisions() {
    let mut table: SubscriberTable<u8> = SubscriberTable::new();
    table.add_subscriber("t".to_string(), "o".to_string(), 0, 4321, 111);
    let rewrite = header_rewrite(&table.subscribers("t").unwrap()[0]);
    assert_eq!((rewrite.ssrc, rewrite.payload_type, rewrite.keep_extensions), (4321, 111, false));
    let waits: Vec<u64> = (0..7).filter_map(next_keyframe_request).collect();
    assert_eq!(waits, vec![500; 5]);
    assert_eq!(next_keyframe_request(5), None);
}

#[test]
fn ping_frames_get_one_pong() {
    match frame_step("{\"timestamp\":12.0,\"type\":\"ping\"}") {
        FrameStep::Reply(m) => {
            assert_eq!(m.id, "pong");
            assert_eq!(m.payload, MessageType::Pong);
        }
        FrameStep::Read => panic!("expected a pong"),
    }
    assert!(matches!(frame_step("{\"type\":\"pong\"}"), FrameStep::Read));
    assert!(matches!(frame_step("garbage"), FrameStep::Read));
}
