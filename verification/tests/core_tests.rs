use video_chat::common::cleanup::CleanupManager;
use video_chat::common::config::{Config, TurnServer};
use video_chat::common::error::Error;
use video_chat::common::participant::Participant;
use video_chat::common::room::Room;
use video_chat::common::telemetry::Telemetry;
use video_chat::signaling::error::Error as SignalingError;
use video_chat::string_map::StringMap;

#[test]
fn test_default_config() {
    let config = Config::default();
    assert!(!config.stun_servers.is_empty());
    assert_eq!(config.max_participants, 100);
    assert!(config.auto_delete_messages);
    assert!(!config.admin_mode);
}

#[test]
fn test_config_validation() {
    let mut config = Config::default();
    assert!(config.validate().is_ok());

    config.stun_servers.clear();
    assert!(config.validate().is_err());

    config.add_turn_server(TurnServer {
        url: "turn:server.com".to_string(),
        username: None,
        credential: None,
    });
    assert!(config.validate().is_ok());

    config.sfu_server_url = String::new();
    assert!(config.validate().is_err());
}

#[test]
fn test_add_servers() {
    let mut config = Config::default();
    let initial_stun_count = config.stun_servers.len();

    config.add_stun_server("stun:custom.server.com:3478");
    assert_eq!(config.stun_servers.len(), initial_stun_count + 1);

    config.add_turn_server(TurnServer {
        url: "turn:turn.server.com:3478".to_string(),
        username: Some("user".to_string()),
        credential: Some("pass".to_string()),
    });
    assert_eq!(config.turn_servers.len(), 1);
}

#[test]
fn test_max_participants_validation() {
    let mut config = Config::default();
    config.max_participants = 0;
    assert!(config.validate().is_err());

    config.max_participants = 1;
    assert!(config.validate().is_ok());
}

#[test]
fn error_test_error_creation() {
    let err = Error::config("test config error");
    assert!(matches!(err, Error::Config(_)));
    assert_eq!(err.to_string(), "Configuration error: test config error");

    let err = SignalingError::invalid_message("test");
    assert!(matches!(err, SignalingError::InvalidMessage(_)));
    assert_eq!(err.to_string(), "Invalid message format: test");
}

#[test]
fn test_all_error_variants() {
    let errors = vec![
        Error::config("config"),
        Error::invalid_state("state"),
        Error::network("network"),
        Error::webrtc("webrtc"),
        Error::signaling("signaling"),
        Error::database("database"),
    ];

    for err in errors {
        assert!(!err.to_string().is_empty());
    }
}

#[test]
fn test_room_management() {
    let mut room = Room::new("test-room".into());
    let p1 = Participant::new("p1".into(), "Alice".into(), true);
    let p2 = Participant::new("p2".into(), "Bob".into(), false);

    room.add_participant(p1).unwrap();
    room.add_participant(p2).unwrap();

    assert_eq!(room.participants.len(), 2);
    assert!(room.get_participant("p1").is_some());
    assert_eq!(room.get_participant("p1").unwrap().name, "Alice");

    let removed = room.remove_participant("p2").unwrap();
    assert!(removed.is_some());
    assert_eq!(removed.unwrap().name, "Bob");
    assert_eq!(room.participants.len(), 1);

    let participants = room.list_participants();
    assert_eq!(participants.len(), 1);
}

#[test]
fn test_cleanup_room() {
    let result = CleanupManager::cleanup_room_assets("test-room");
    assert!(result.is_ok());
}

#[test]
fn config_validation_reports_first_problem() {
    let mut config = Config::new();
    config.stun_servers.clear();
    config.sfu_server_url = String::new();
    let err = config.validate().unwrap_err();
    assert_eq!(
        err.to_string(),
        "Configuration error: At least one STUN or TURN server must be configured"
    );

    let mut config = Config::new();
    config.sfu_server_url = String::new();
    assert_eq!(
        config.validate().unwrap_err().to_string(),
        "Configuration error: SFU server URL cannot be empty"
    );

    let mut config = Config::new();
    config.signaling_server_url = String::new();
    assert_eq!(
        config.validate().unwrap_err().to_string(),
        "Configuration error: Signaling server URL cannot be empty"
    );

    let mut config = Config::new();
    config.max_participants = 0;
    assert_eq!(
        config.validate().unwrap_err().to_string(),
        "Configuration error: Max participants must be greater than 0"
    );
}

#[test]
fn config_default_values() {
    let config = Config::new();
    assert_eq!(
        config.stun_servers,
        vec![
            "stun:stun.l.google.com:19302".to_string(),
            "stun:stun1.l.google.com:19302".to_string()
        ]
    );
    assert!(config.turn_servers.is_empty());
    assert_eq!(config.sfu_server_url, "ws://localhost:8080");
    assert_eq!(config.signaling_server_url, "ws://localhost:8081");
}

#[test]
fn add_stun_server_appends_at_end() {
    let mut config = Config::new();
    config.add_stun_server("stun:x");
    assert_eq!(config.stun_servers.last().unwrap(), "stun:x");
    assert_eq!(config.stun_servers[0], "stun:stun.l.google.com:19302");
}

#[test]
fn error_texts_of_each_variant() {
    assert_eq!(Error::invalid_state("s").to_string(), "Invalid state: s");
    assert_eq!(Error::network("n").to_string(), "Network error: n");
    assert_eq!(Error::webrtc("w").to_string(), "WebRTC error: w");
    assert_eq!(Error::signaling("g").to_string(), "Signaling error: g");
    assert_eq!(Error::database("d").to_string(), "Database error: d");
}

#[test]
fn room_rejects_duplicate_and_missing() {
    let mut room = Room::new("r".into());
    room.add_participant(Participant::new("p1".into(), "Alice".into(), true)).unwrap();
    let again = room.add_participant(Participant::new("p1".into(), "Other".into(), false));
    assert!(again.is_ok());
    assert_eq!(room.participants.len(), 1);
    assert_eq!(room.get_participant("p1").unwrap().name, "Other");
    assert!(room.remove_participant("nobody").unwrap().is_none());
    assert!(room.get_participant("nobody").is_none());
}

#[test]
fn telemetry_records() {
    assert_eq!(Telemetry::log_error("boom"), "Telemetry Error: boom");
    assert_eq!(
        Telemetry::log_performance("load", 1234),
        "Performance Metric: load = 1234ms"
    );
    assert_eq!(Telemetry::log_performance("zero", 0), "Performance Metric: zero = 0ms");
    assert_eq!(Telemetry::track_error("E1", "bad"), "Error [E1]: bad");
    assert_eq!(Telemetry::capture_analytics("click"), "Analytics Event: click");
    assert_eq!(
        Telemetry::log_event("join", vec![("room", "r1")]),
        "Telemetry Event: join - [(\"room\", \"r1\")]"
    );
    assert_eq!(
        Telemetry::event_record("join", "[]"),
        "Telemetry Event: join - []"
    );
}

#[test]
fn string_map_remove_undoes_insert() {
    let mut m: StringMap<u32> = StringMap::new();
    m.insert("a".to_string(), 1);
    assert_eq!(m.insert("b".to_string(), 2), None);
    assert_eq!(m.remove("b"), Some(2));
    assert_eq!(m.len(), 1);
    assert_eq!(m.get("a"), Some(&1));
    assert!(!m.contains_key("b"));
    assert_eq!(m.insert("a".to_string(), 5), Some(1));
    assert_eq!(m.get("a"), Some(&5));
    let keys: Vec<String> = m.keys().into_iter().cloned().collect();
    assert_eq!(keys, vec!["a".to_string()]);
}

#[test]
fn clock_reading_before_epoch_is_zero() {
    assert_eq!(video_chat::clock::millis_or_zero(Some(42)), 42);
    assert_eq!(video_chat::clock::millis_or_zero(None), 0);
    assert!(video_chat::clock::now_millis() > 0);
}
