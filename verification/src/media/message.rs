//! Messages sent over the data channel.
use vstd::prelude::*;

use crate::clock::now_millis;

verus! {

#[verifier::external_type_specification]
#[verifier::external_body]
pub struct ExJsonValue(serde_json::Value);

/// `<serde_json::Value as Clone>::clone`, whose derived implementation copies the
/// value: the copy is claimed to equal the value it was made from.
pub assume_specification[ <serde_json::Value as Clone>::clone ](v: &serde_json::Value) -> (r: serde_json::Value)
    ensures
        r == *v,
;

/// A message sent over the data channel.
#[derive(Debug, Clone, PartialEq)]
pub enum DataChannelMessage {
    Chat { sender_id: String, content: String, timestamp: i64 },
    Typing { sender_id: String, is_typing: bool },
    /// Control data, carried through as a JSON value
    Control(serde_json::Value),
}

impl DataChannelMessage {
    /// A chat message from `sender_id`, stamped with the current time in
    /// milliseconds.
    pub fn new_chat(sender_id: String, content: String) -> (m: Self)
        ensures
            m matches DataChannelMessage::Chat { sender_id: s, content: c, .. } && s == sender_id
                && c == content,
    {
        let now = now_millis();
        Self::new_chat_at(sender_id, content, now as i64)
    }

    /// A chat message from `sender_id`, stamped with `timestamp` (milliseconds).
    pub fn new_chat_at(sender_id: String, content: String, timestamp: i64) -> (m: Self)
        ensures
            m == (DataChannelMessage::Chat { sender_id, content, timestamp }),
    {
        Self::Chat { sender_id, content, timestamp }
    }

    /// A copy of the message.
    pub fn duplicate(&self) -> (r: Self)
        ensures
            r == *self,
    {
        match self {
            DataChannelMessage::Chat { sender_id, content, timestamp } => DataChannelMessage::Chat {
                sender_id: sender_id.clone(),
                content: content.clone(),
                timestamp: *timestamp,
            },
            DataChannelMessage::Typing { sender_id, is_typing } => DataChannelMessage::Typing {
                sender_id: sender_id.clone(),
                is_typing: *is_typing,
            },
            DataChannelMessage::Control(v) => DataChannelMessage::Control(v.clone()),
        }
    }
}

} // verus!
