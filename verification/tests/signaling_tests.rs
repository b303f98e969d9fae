use video_chat::signaling::error::Error;
use video_chat::signaling::keepalive::{
    is_json_of_type, keepalive_action, ping_frame, KeepaliveAction,
};
use video_chat::signaling::messages::{
    IceCandidate, Message, MessageType, SdpType, SessionDescription,
};
use video_chat::signaling::protocol::{Protocol, ProtocolVersion};
use video_chat::signaling::stun_config::{
    server_ice_config_from_values, stun_config_from_values, StunConfig,
};

fn join(id: &str) -> Message {
    Message::new(
        id,
        MessageType::Join {
            room_id: "room1".to_string(),
            participant_id: "user1".to_string(),
        },
    )
}

#[test]
fn test_message_creation() {
    let msg = Message::new(
        "test-id",
        MessageType::Join {
            room_id: "room1".to_string(),
            participant_id: "user1".to_string(),
        },
    );

    assert_eq!(msg.id, "test-id");
    assert_eq!(msg.version, "1.0");
    assert!(msg.timestamp > 0);
}

#[test]
fn message_new_at_keeps_timestamp() {
    let m = Message::new_at(
        "test-id",
        MessageType::Join { room_id: "room1".to_string(), participant_id: "user1".to_string() },
        1_700_000_000_000,
    );
    assert_eq!(m.id, "test-id");
    assert_eq!(m.version, "1.0");
    assert_eq!(m.timestamp, 1_700_000_000_000);
}

#[test]
fn versions_order_by_major_then_minor() {
    assert!(ProtocolVersion::new(1, 9) < ProtocolVersion::new(2, 0));
    assert!(ProtocolVersion::new(2, 1) > ProtocolVersion::new(2, 0));
    assert!(ProtocolVersion::new(3, 3) <= ProtocolVersion::new(3, 3));
    assert_eq!(
        ProtocolVersion::new(1, 2).cmp(&ProtocolVersion::new(1, 3)),
        std::cmp::Ordering::Less
    );
}

#[test]
fn test_offer_message() {
    let sdp = SessionDescription {
        sdp_type: SdpType::Offer,
        sdp: "v=0\r\no=- 123 456 IN IP4 0.0.0.0\r\n".to_string(),
    };

    let msg = Message::new(
        "offer-1",
        MessageType::Offer {
            sdp: sdp.clone(),
            participant_id: "user1".to_string(),
        },
    );

    assert!(msg.validate().is_ok());
}

#[test]
fn test_ice_candidate_message() {
    let candidate = IceCandidate {
        candidate: "candidate:1 1 UDP 2130706431 192.168.1.1 54321 typ host".to_string(),
        sdp_mid: Some("0".to_string()),
        sdp_m_line_index: Some(0),
    };

    let msg = Message::new(
        "ice-1",
        MessageType::IceCandidate {
            candidate,
            participant_id: "user1".to_string(),
        },
    );

    assert!(msg.validate().is_ok());
}

#[test]
fn test_subscribe_message() {
    let msg = Message::new(
        "sub-1",
        MessageType::Subscribe {
            target_id: "user2".to_string(),
            participant_id: "user1".to_string(),
        },
    );

    assert!(msg.validate().is_ok());
}

#[test]
fn test_message_validation() {
    let mut msg = Message::new(
        "",
        MessageType::Join {
            room_id: "room1".to_string(),
            participant_id: "user1".to_string(),
        },
    );

    assert!(msg.validate().is_err());

    msg.id = "valid-id".to_string();
    assert!(msg.validate().is_ok());
}

#[test]
fn test_empty_sdp_validation() {
    let sdp = SessionDescription {
        sdp_type: SdpType::Offer,
        sdp: String::new(),
    };

    let msg = Message::new(
        "offer-1",
        MessageType::Offer {
            sdp,
            participant_id: "user1".to_string(),
        },
    );

    assert!(msg.validate().is_err());
}

#[test]
fn test_protocol_version() {
    let v1 = ProtocolVersion::new(1, 0);
    let v2 = ProtocolVersion::new(1, 1);
    let v3 = ProtocolVersion::new(2, 0);

    assert!(v2 > v1);
    assert!(v3 > v2);
    assert_eq!(v1.to_string(), "1.0");
}

#[test]
fn test_version_from_str() {
    let v: ProtocolVersion = "1.0".parse().unwrap();
    assert_eq!(v.major, 1);
    assert_eq!(v.minor, 0);

    assert!("invalid".parse::<ProtocolVersion>().is_err());
    assert!("1".parse::<ProtocolVersion>().is_err());
}

#[test]
fn test_version_compatibility() {
    let v1_0 = ProtocolVersion::new(1, 0);
    let v1_1 = ProtocolVersion::new(1, 1);
    let v2_0 = ProtocolVersion::new(2, 0);

    assert!(v1_1.is_compatible_with(&v1_0));
    assert!(!v1_0.is_compatible_with(&v1_1));
    assert!(!v2_0.is_compatible_with(&v1_0));
}

#[test]
fn test_protocol_validation() {
    let protocol = Protocol::new();

    let msg = Message::new(
        "test-1",
        MessageType::Join {
            room_id: "room1".to_string(),
            participant_id: "user1".to_string(),
        },
    );

    assert!(protocol.validate_message(&msg).is_ok());
}

#[test]
fn test_incompatible_version() {
    let protocol = Protocol::new();

    let mut msg = Message::new(
        "test-1",
        MessageType::Join {
            room_id: "room1".to_string(),
            participant_id: "user1".to_string(),
        },
    );

    msg.version = "0.9".to_string();
    assert!(protocol.validate_message(&msg).is_err());
}

#[test]
fn test_default_stun_config_struct() {
    let default_config = StunConfig::default();
    assert_eq!(default_config.ice_servers.len(), 0);
}

#[test]
fn test_signaling_flow() {
    let protocol = Protocol::new();

    let join_msg = Message::new(
        "join-1",
        MessageType::Join {
            room_id: "room-123".to_string(),
            participant_id: "user-abc".to_string(),
        },
    );
    assert!(protocol.validate_message(&join_msg).is_ok());

    let offer_sdp = SessionDescription {
        sdp_type: SdpType::Offer,
        sdp: "v=0...".to_string(),
    };
    let offer_msg = Message::new(
        "offer-1",
        MessageType::Offer {
            sdp: offer_sdp,
            participant_id: "user-abc".to_string(),
        },
    );
    assert!(protocol.validate_message(&offer_msg).is_ok());

    let answer_sdp = SessionDescription {
        sdp_type: SdpType::Answer,
        sdp: "v=0...".to_string(),
    };
    let answer_msg = Message::new(
        "answer-1",
        MessageType::Answer {
            sdp: answer_sdp,
            participant_id: "user-xyz".to_string(),
        },
    );
    assert!(protocol.validate_message(&answer_msg).is_ok());
}

#[test]
fn test_invalid_flow() {
    let protocol = Protocol::new();

    let invalid_sdp = SessionDescription {
        sdp_type: SdpType::Offer,
        sdp: String::new(),
    };
    let msg = Message::new(
        "invalid-1",
        MessageType::Offer {
            sdp: invalid_sdp,
            participant_id: "user-abc".to_string(),
        },
    );

    assert!(protocol.validate_message(&msg).is_err());
}

#[test]
fn version_text_round_trip() {
    for (major, minor) in [(0u16, 0u16), (1, 0), (12, 345), (65535, 65535)] {
        let v = ProtocolVersion::new(major, minor);
        let back: ProtocolVersion = v.to_string().parse().unwrap();
        assert_eq!(back, v);
    }
}

#[test]
fn version_parse_rejects_bad_text() {
    for bad in ["", "1.", ".1", "1.0.0", "a.b", "1.x", "70000.0", "1.70000", "-1.0", " 1.0"] {
        let r = ProtocolVersion::parse(bad);
        assert!(matches!(r, Err(Error::UnsupportedVersion(_))), "{}", bad);
    }
    assert_eq!(
        ProtocolVersion::parse("1").unwrap_err().to_string(),
        "Unsupported protocol version: Invalid version format: 1"
    );
    assert_eq!(
        ProtocolVersion::parse("a.0").unwrap_err().to_string(),
        "Unsupported protocol version: Invalid major version: a.0"
    );
    assert_eq!(
        ProtocolVersion::parse("1.b").unwrap_err().to_string(),
        "Unsupported protocol version: Invalid minor version: 1.b"
    );
    assert_eq!(ProtocolVersion::parse("+2.+3").unwrap(), ProtocolVersion::new(2, 3));
}

#[test]
fn compatibility_is_reflexive_and_transitive() {
    let a = ProtocolVersion::new(3, 5);
    let b = ProtocolVersion::new(3, 2);
    let c = ProtocolVersion::new(3, 0);
    assert!(a.is_compatible_with(&a));
    assert!(a.is_compatible_with(&b) && b.is_compatible_with(&c) && a.is_compatible_with(&c));
}

#[test]
fn current_version_is_one_zero() {
    let v = ProtocolVersion::current();
    assert_eq!((v.major, v.minor), (1, 0));
    assert_eq!(Protocol::new().version().to_string(), "1.0");
    assert_eq!(Protocol::default().version().to_string(), "1.0");
}

#[test]
fn incompatible_version_error_text() {
    let protocol = Protocol::new();
    let mut msg = join("m");
    msg.version = "1.1".to_string();
    let err = protocol.validate_message(&msg).unwrap_err();
    assert_eq!(
        err.to_string(),
        "Unsupported protocol version: Message version 1.1 is not compatible with protocol version 1.0"
    );
    msg.version = "x".to_string();
    assert!(matches!(
        protocol.validate_message(&msg),
        Err(Error::UnsupportedVersion(_))
    ));
}

#[test]
fn validation_errors_by_kind() {
    assert_eq!(
        join("").validate().unwrap_err().to_string(),
        "Invalid message format: Message ID cannot be empty"
    );
    let empty_candidate = Message::new(
        "c",
        MessageType::IceCandidate {
            candidate: IceCandidate {
                candidate: String::new(),
                sdp_mid: None,
                sdp_m_line_index: None,
            },
            participant_id: "p".to_string(),
        },
    );
    assert!(matches!(
        empty_candidate.validate(),
        Err(Error::InvalidIceCandidate(_))
    ));
    let empty_answer = Message::new(
        "a",
        MessageType::Answer {
            sdp: SessionDescription { sdp_type: SdpType::Answer, sdp: String::new() },
            participant_id: "p".to_string(),
        },
    );
    assert!(matches!(empty_answer.validate(), Err(Error::InvalidSdp(_))));
    let mut other_version = join("v");
    other_version.version = "2.0".to_string();
    assert!(other_version.validate().is_ok());
    other_version.version = String::new();
    assert_eq!(
        other_version.validate().unwrap_err().to_string(),
        "Invalid message format: Version cannot be empty"
    );
}

#[test]
fn parse_message_passes_errors_and_validates() {
    let protocol = Protocol::new();
    let read = protocol.parse_message(Ok(join("test-1"))).unwrap();
    assert_eq!(read.id, "test-1");
    let failed = protocol.parse_message(Err(Error::Serialization("bad json".to_string())));
    assert!(matches!(failed, Err(Error::Serialization(_))));
    assert!(protocol.parse_message(Ok(join(""))).is_err());
}

#[test]
fn error_texts() {
    assert_eq!(
        Error::unsupported_version("9.9").to_string(),
        "Unsupported protocol version: 9.9"
    );
    assert_eq!(Error::invalid_sdp("x").to_string(), "Invalid SDP: x");
    assert_eq!(
        Error::invalid_ice_candidate("y").to_string(),
        "Invalid ICE candidate: y"
    );
}

#[test]
fn core_error_converts_into_signaling_error() {
    let e: Error = video_chat::common::error::Error::network("down").into();
    assert!(matches!(e, Error::Core(_)));
}

#[test]
fn stun_config_from_values_orders_servers() {
    let c = stun_config_from_values(
        None,
        Some("u".to_string()),
        Some("p".to_string()),
        vec!["turn:a".to_string(), "turn:b".to_string()],
    );
    assert_eq!(c.ice_servers.len(), 3);
    assert_eq!(c.ice_servers[0].urls, vec!["stun:stun.l.google.com:19302".to_string()]);
    assert_eq!(c.ice_servers[0].username, None);
    assert_eq!(c.ice_servers[1].urls, vec!["turn:a".to_string()]);
    assert_eq!(c.ice_servers[2].urls, vec!["turn:b".to_string()]);
    assert_eq!(c.ice_servers[2].username.as_deref(), Some("u"));
    assert_eq!(c.ice_servers[2].credential.as_deref(), Some("p"));

    let c = stun_config_from_values(Some("stun:mine".to_string()), None, None, vec![]);
    assert_eq!(c.ice_servers.len(), 1);
    assert_eq!(c.ice_servers[0].urls, vec!["stun:mine".to_string()]);
}

#[test]
fn server_ice_config_needs_both_credentials() {
    let c = server_ice_config_from_values(
        None,
        Some("u".to_string()),
        None,
        vec![Some("turn:a".to_string())],
    );
    assert_eq!(c.ice_servers.len(), 1);

    let c = server_ice_config_from_values(
        Some("stun:s".to_string()),
        Some("u".to_string()),
        Some("p".to_string()),
        vec![None, Some("turn:a".to_string()), None, Some("turn:b".to_string())],
    );
    assert_eq!(c.ice_servers.len(), 3);
    assert_eq!(c.ice_servers[0].urls, vec!["stun:s".to_string()]);
    assert_eq!(c.ice_servers[1].urls, vec!["turn:a".to_string()]);
    assert_eq!(c.ice_servers[2].urls, vec!["turn:b".to_string()]);
    let creds = c.credentials();
    assert_eq!(creds.len(), 3);
    assert_eq!(creds[0].username, "");
    assert!(!creds[0].password_credential);
    assert_eq!(creds[1].username, "u");
    assert_eq!(creds[1].credential, "p");
    assert!(creds[1].password_credential);
}

#[test]
fn keepalive_ticks() {
    assert_eq!(keepalive_action(100_000, 30_000, true), KeepaliveAction::Close);
    assert_eq!(keepalive_action(90_000, 30_000, true), KeepaliveAction::SendPing);
    assert_eq!(keepalive_action(90_001, 30_000, false), KeepaliveAction::Close);
    assert_eq!(keepalive_action(90_000, 30_000, false), KeepaliveAction::Wait);
    assert_eq!(keepalive_action(10, 50, true), KeepaliveAction::SendPing);
}

#[test]
fn frame_type_detection() {
    assert!(is_json_of_type("{\"type\":\"ping\",\"timestamp\":1}", "ping"));
    assert!(is_json_of_type("{\"timestamp\":5.0,\"type\":\"pong\"}", "pong"));
    assert!(!is_json_of_type("{\"type\":\"ping\"}", "pong"));
    assert!(!is_json_of_type("{\"type\":3}", "3"));
    assert!(!is_json_of_type("not json", "ping"));
    assert!(!is_json_of_type("{\"version\":\"1.0\",\"id\":\"j\",\"timestamp\":1,\"type\":\"join\",\"room_id\":\"r\",\"participant_id\":\"p\"}", "ping"));
}

#[test]
fn ping_frames() {
    let frame = ping_frame(1_700_000_000_123);
    assert_eq!(frame, "{\"timestamp\":1700000000123.0,\"type\":\"ping\"}");
    assert!(is_json_of_type(&frame, "ping"));
    let mut object = serde_json::Map::new();
    object.insert("type".to_string(), serde_json::Value::String("ping".to_string()));
    object.insert("timestamp".to_string(), serde_json::Value::from(1_700_000_000_123f64));
    assert_eq!(serde_json::to_string(&serde_json::Value::Object(object)).unwrap(), frame);
}
