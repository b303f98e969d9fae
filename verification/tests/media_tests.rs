use video_chat::common::error::Error as CoreError;
use video_chat::media::data_channel::{send_plan, DataChannelState, SendPlan};
use video_chat::media::error::MediaError;
use video_chat::media::message::DataChannelMessage;
use video_chat::media::quality::QualityLayer;
use video_chat::media::transient_storage::TransientStorage;

#[test]
fn test_error_conversion() {
    let media_err = MediaError::WebRtc("test".into());
    let core_err: CoreError = media_err.into();
    match core_err {
        CoreError::Media(m) => assert_eq!(m, "WebRTC Error: test"),
        _ => panic!("Incorrect error mapping"),
    }
}

#[test]
fn test_transient_storage() {
    let mut storage = TransientStorage::new(2);

    let msg1 = DataChannelMessage::new_chat("u1".into(), "1".into());
    let msg2 = DataChannelMessage::new_chat("u1".into(), "2".into());
    let msg3 = DataChannelMessage::new_chat("u1".into(), "3".into());

    storage.add_message(msg1.clone());
    assert_eq!(storage.get_messages().len(), 1);

    storage.add_message(msg2.clone());
    assert_eq!(storage.get_messages().len(), 2);

    storage.add_message(msg3.clone());
    let messages = storage.get_messages();
    assert_eq!(messages.len(), 2);
    assert_eq!(messages[0], msg2);
    assert_eq!(messages[1], msg3);
}

#[test]
fn transient_storage_zero_capacity_keeps_last() {
    let mut storage = TransientStorage::new(0);
    let a = DataChannelMessage::Typing { sender_id: "a".into(), is_typing: true };
    let b = DataChannelMessage::Typing { sender_id: "b".into(), is_typing: false };
    storage.add_message(a);
    storage.add_message(b.clone());
    assert_eq!(storage.get_messages(), vec![b]);
    storage.clear();
    assert!(storage.get_messages().is_empty());
}

#[test]
fn transient_storage_keeps_most_recent_in_order() {
    let mut storage = TransientStorage::new(3);
    let msgs: Vec<DataChannelMessage> = (0..10)
        .map(|i| DataChannelMessage::Typing { sender_id: format!("u{}", i), is_typing: i % 2 == 0 })
        .collect();
    for m in &msgs {
        storage.add_message(m.clone());
        assert!(storage.get_messages().len() <= 3);
    }
    assert_eq!(storage.get_messages(), msgs[7..].to_vec());
}

#[test]
fn new_chat_keeps_sender_and_content() {
    match DataChannelMessage::new_chat("user1".into(), "hello".into()) {
        DataChannelMessage::Chat { sender_id, content, timestamp } => {
            assert_eq!(sender_id, "user1");
            assert_eq!(content, "hello");
            assert!(timestamp > 0);
        }
        _ => panic!("Wrong message type"),
    }
}

#[test]
fn duplicate_is_equal() {
    let m = DataChannelMessage::Control(serde_json::Value::Bool(true));
    assert_eq!(m.duplicate(), m);
    let c = DataChannelMessage::new_chat("a".into(), "b".into());
    assert_eq!(c.duplicate(), c);
}

#[test]
fn quality_layer_thresholds() {
    assert_eq!(QualityLayer::from_bitrate(0), QualityLayer::Low);
    assert_eq!(QualityLayer::from_bitrate(149_999), QualityLayer::Low);
    assert_eq!(QualityLayer::from_bitrate(150_000), QualityLayer::Medium);
    assert_eq!(QualityLayer::from_bitrate(749_999), QualityLayer::Medium);
    assert_eq!(QualityLayer::from_bitrate(750_000), QualityLayer::High);
    assert_eq!(QualityLayer::from_bitrate(u64::MAX), QualityLayer::High);
    assert_eq!(QualityLayer::Low.to_rid(), "l");
    assert_eq!(QualityLayer::Medium.to_rid(), "m");
    assert_eq!(QualityLayer::High.to_rid(), "h");
}

#[test]
fn send_plan_by_state() {
    assert_eq!(send_plan(Some(DataChannelState::Open)).unwrap(), SendPlan::SendNow);
    assert_eq!(send_plan(Some(DataChannelState::Connecting)).unwrap(), SendPlan::Queue);
    assert_eq!(
        send_plan(None).unwrap_err().to_string(),
        "DataChannel Error: No DataChannel initialized"
    );
    assert_eq!(
        send_plan(Some(DataChannelState::Closing)).unwrap_err().to_string(),
        "DataChannel Error: DataChannel is closed or closing"
    );
    assert!(send_plan(Some(DataChannelState::Closed)).is_err());
}

#[test]
fn media_error_texts() {
    assert_eq!(MediaError::Stream("s".into()).to_string(), "Stream Error: s");
    assert_eq!(MediaError::Internal("i".into()).to_string(), "Internal Error: i");
    assert_eq!(
        MediaError::Serialization("j".into()).to_string(),
        "Serialization Error: j"
    );
    assert_eq!(
        MediaError::DataChannel("x".into()).into_core().to_string(),
        "Media error: DataChannel Error: x"
    );
}

#[test]
fn new_chat_at_keeps_timestamp() {
    assert_eq!(
        DataChannelMessage::new_chat_at("u".into(), "c".into(), 42),
        DataChannelMessage::Chat { sender_id: "u".into(), content: "c".into(), timestamp: 42 }
    );
}
