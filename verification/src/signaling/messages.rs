//! Signaling message types for the SFU architecture.
use vstd::prelude::*;
use vstd::string::*;

use crate::clock::now_millis;
use crate::signaling::error::{Error, ErrorView};

verus! {

/// SDP (Session Description Protocol) type.
#[derive(Debug, Clone, PartialEq, Eq)]
pub enum SdpType {
    /// Offer SDP
    Offer,
    /// Answer SDP
    Answer,
}

/// ICE candidate information.
#[derive(Debug, Clone, PartialEq)]
pub struct IceCandidate {
    /// Candidate string
    pub candidate: String,
    /// SDP media line index
    pub sdp_mid: Option<String>,
    /// SDP media line index number
    pub sdp_m_line_index: Option<u16>,
}

/// Session Description Protocol message.
#[derive(Debug, Clone, PartialEq)]
pub struct SessionDescription {
    /// SDP type (offer or answer)
    pub sdp_type: SdpType,
    /// SDP content
    pub sdp: String,
}

/// Message types for SFU signaling.
#[derive(Debug, Clone, PartialEq)]
pub enum MessageType {
    /// Join a room
    Join { room_id: String, participant_id: String },
    /// Leave a room
    Leave { room_id: String, participant_id: String },
    /// Offer SDP to SFU
    Offer { sdp: SessionDescription, participant_id: String },
    /// Answer SDP from SFU
    Answer { sdp: SessionDescription, participant_id: String },
    /// ICE candidate
    IceCandidate { candidate: IceCandidate, participant_id: String },
    /// Subscribe to a participant's stream
    Subscribe { target_id: String, participant_id: String },
    /// Unsubscribe from a participant's stream
    Unsubscribe { target_id: String, participant_id: String },
    /// Chat message to be relayed to all participants in the room
    Chat { room_id: String, participant_id: String, text: String },
    /// Error message
    Error { code: u16, message: String },
    /// Keepalive pong
    Pong,
}

/// Complete signaling message with metadata.
#[derive(Debug, Clone, PartialEq)]
pub struct Message {
    /// Protocol version
    pub version: String,
    /// Message ID for tracking
    pub id: String,
    /// Timestamp (milliseconds since epoch)
    pub timestamp: u64,
    /// Message payload
    pub payload: MessageType,
}

/// The protocol version that new messages carry.
pub open spec fn message_version() -> Seq<char> {
    "1.0"@
}

/// The first problem that validation finds in the content of `m`, if any.
pub open spec fn message_problem(m: Message) -> Option<ErrorView> {
    if m.id@.len() == 0 {
        Some(ErrorView::InvalidMessage("Message ID cannot be empty"@))
    } else if m.version@.len() == 0 {
        Some(ErrorView::InvalidMessage("Version cannot be empty"@))
    } else {
        match m.payload {
            MessageType::Offer { sdp, .. } | MessageType::Answer { sdp, .. } => {
                if sdp.sdp@.len() == 0 {
                    Some(ErrorView::InvalidSdp("SDP content cannot be empty"@))
                } else {
                    None
                }
            },
            MessageType::IceCandidate { candidate, .. } => {
                if candidate.candidate@.len() == 0 {
                    Some(ErrorView::InvalidIceCandidate("Candidate string cannot be empty"@))
                } else {
                    None
                }
            },
            _ => None,
        }
    }
}

impl Message {
    /// Create a new message with the given payload, stamped with the current time.
    pub fn new(id: &str, payload: MessageType) -> (m: Self)
        ensures
            m.version@ == message_version(),
            m.id@ == id@,
            m.payload == payload,
    {
        Self::new_at(id, payload, Self::current_timestamp())
    }

    /// Create a new message with the given payload, stamped with `timestamp`
    /// (milliseconds since the Unix epoch).
    pub fn new_at(id: &str, payload: MessageType, timestamp: u64) -> (m: Self)
        ensures
            m.version@ == message_version(),
            m.id@ == id@,
            m.timestamp == timestamp,
            m.payload == payload,
    {
        Self { version: "1.0".to_owned(), id: id.to_owned(), timestamp, payload }
    }

    /// Current timestamp in milliseconds.
    fn current_timestamp() -> u64 {
        now_millis()
    }

    /// Validate the message.
    pub fn validate(&self) -> (r: Result<(), Error>)
        ensures
            match r {
                Ok(()) => message_problem(*self) is None,
                Err(e) => message_problem(*self) == Some(e@),
            },
    {
        if self.id.as_str().is_empty() {
            return Err(Error::invalid_message("Message ID cannot be empty"));
        }
        if self.version.as_str().is_empty() {
            return Err(Error::invalid_message("Version cannot be empty"));
        }
        match &self.payload {
            MessageType::Offer { sdp, .. } | MessageType::Answer { sdp, .. } => {
                if sdp.sdp.as_str().is_empty() {
                    return Err(Error::invalid_sdp("SDP content cannot be empty"));
                }
            },
            MessageType::IceCandidate { candidate, .. } => {
                if candidate.candidate.as_str().is_empty() {
                    return Err(Error::invalid_ice_candidate("Candidate string cannot be empty"));
                }
            },
            _ => {},
        }
        Ok(())
    }
}

} // verus!
