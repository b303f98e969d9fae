//! What the server does with each signaling message of one connection.
use vstd::prelude::*;
use vstd::string::*;

use crate::signaling::messages::{
    IceCandidate, Message, MessageType, SdpType, SessionDescription, message_version,
};
use crate::signaling::keepalive::{is_json_of_type, json_type_field};
use crate::text::{append_signed_decimal, concat, signed_decimal};

verus! {

/// The room and participant that a connection has joined as, once it has.
pub struct SessionState {
    pub current_room: Option<String>,
    pub current_participant: Option<String>,
}

/// What the server is to do for a signaling message.
pub enum SessionAction {
    /// Add the participant to the room, with the connection's outgoing channel.
    Join { room_id: String, participant_id: String },
    /// A subscription request, which the server only records in its log.
    Subscribe { target_id: String, participant_id: String },
    /// Answer the participant's offer in the room, and send the answer under `answer_id`.
    HandleOffer { room_id: String, participant_id: String, sdp: String, answer_id: String },
    /// Apply the participant's answer to a renegotiation offer.
    ApplyAnswer { room_id: String, participant_id: String, sdp: String },
    /// Add a remote ICE candidate to the participant's connection.
    AddIceCandidate { room_id: String, participant_id: String, candidate: IceCandidate },
    /// Send the message to everyone in the room.
    Broadcast { room_id: String, message: Message },
    /// Nothing to do but log the message.
    Ignore,
}

pub open spec fn opt_chars(o: Option<String>) -> Option<Seq<char>> {
    match o {
        Some(s) => Some(s@),
        None => None,
    }
}

/// `a` relays a chat message of `participant_id` in `room_id` to the room, under
/// the id `chat-<source_id>`.
pub open spec fn relays_chat(
    a: SessionAction,
    room_id: Seq<char>,
    participant_id: Seq<char>,
    text: Seq<char>,
    source_id: Seq<char>,
) -> bool {
    match a {
        SessionAction::Broadcast { room_id: r, message: m } => {
            &&& r@ == room_id
            &&& m.id@ == "chat-"@ + source_id
            &&& m.version@ == message_version()
            &&& match m.payload {
                MessageType::Chat { room_id: mr, participant_id: mp, text: mt } => {
                    &&& mr@ == room_id
                    &&& mp@ == participant_id
                    &&& mt@ == text
                },
                _ => false,
            }
        },
        _ => false,
    }
}

impl SessionState {
    pub fn new() -> (s: Self)
        ensures
            s.current_room is None,
            s.current_participant is None,
    {
        Self { current_room: None, current_participant: None }
    }

    /// The action for a message, and the state after it: a join records the room
    /// and participant; an offer is answered in the current room; an answer is
    /// applied for the current participant; a candidate goes to the participant it
    /// names in the current room; a chat message is relayed to its room under the id
    /// `chat-<id>`; anything else is only logged.
    pub fn on_message(&mut self, msg: Message) -> (a: SessionAction)
        ensures
            match msg.payload {
                MessageType::Join { room_id, participant_id } => {
                    &&& opt_chars(final(self).current_room) == Some(room_id@)
                    &&& opt_chars(final(self).current_participant) == Some(participant_id@)
                    &&& a matches SessionAction::Join { room_id: r, participant_id: p } && r@
                        == room_id@ && p@ == participant_id@
                },
                _ => *final(self) == *old(self),
            },
            match msg.payload {
                MessageType::Join { .. } => true,
                MessageType::Subscribe { target_id, participant_id } => a matches SessionAction::Subscribe {
                    target_id: t,
                    participant_id: p,
                } && t@ == target_id@ && p@ == participant_id@,
                MessageType::Offer { sdp, participant_id } => match old(self).current_room {
                    Some(room) => a matches SessionAction::HandleOffer {
                        room_id: r,
                        participant_id: p,
                        sdp: s,
                        answer_id: i,
                    } && r@ == room@ && p@ == participant_id@ && s@ == sdp.sdp@ && i@ == "answer-"@
                        + msg.id@,
                    None => a is Ignore,
                },
                MessageType::Answer { sdp, .. } => match (
                    old(self).current_room,
                    old(self).current_participant,
                ) {
                    (Some(room), Some(part)) => a matches SessionAction::ApplyAnswer {
                        room_id: r,
                        participant_id: p,
                        sdp: s,
                    } && r@ == room@ && p@ == part@ && s@ == sdp.sdp@,
                    _ => a is Ignore,
                },
                MessageType::IceCandidate { candidate, participant_id } => match old(
                    self,
                ).current_room {
                    Some(room) => a matches SessionAction::AddIceCandidate {
                        room_id: r,
                        participant_id: p,
                        candidate: c,
                    } && r@ == room@ && p@ == participant_id@ && c == candidate,
                    None => a is Ignore,
                },
                MessageType::Chat { room_id, participant_id, text } => relays_chat(
                    a,
                    room_id@,
                    participant_id@,
                    text@,
                    msg.id@,
                ),
                _ => a is Ignore,
            },
    {
        let Message { version: _, id, timestamp: _, payload } = msg;
        match payload {
            MessageType::Join { room_id, participant_id } => {
                self.current_room = Some(room_id.clone());
                self.current_participant = Some(participant_id.clone());
                SessionAction::Join { room_id, participant_id }
            },
            MessageType::Subscribe { target_id, participant_id } => SessionAction::Subscribe {
                target_id,
                participant_id,
            },
            MessageType::Offer { sdp, participant_id } => match &self.current_room {
                Some(room) => SessionAction::HandleOffer {
                    room_id: room.clone(),
                    participant_id,
                    sdp: sdp.sdp,
                    answer_id: concat("answer-", id.as_str()),
                },
                None => SessionAction::Ignore,
            },
            MessageType::Answer { sdp, .. } => match (&self.current_room, &self.current_participant) {
                (Some(room), Some(part)) => SessionAction::ApplyAnswer {
                    room_id: room.clone(),
                    participant_id: part.clone(),
                    sdp: sdp.sdp,
                },
                _ => SessionAction::Ignore,
            },
            MessageType::IceCandidate { candidate, participant_id } => match &self.current_room {
                Some(room) => SessionAction::AddIceCandidate {
                    room_id: room.clone(),
                    participant_id,
                    candidate,
                },
                None => SessionAction::Ignore,
            },
            MessageType::Chat { room_id, participant_id, text } => {
                let chat_id = concat("chat-", id.as_str());
                let message = Message::new(
                    chat_id.as_str(),
                    MessageType::Chat { room_id: room_id.clone(), participant_id, text },
                );
                SessionAction::Broadcast { room_id, message }
            },
            _ => SessionAction::Ignore,
        }
    }

    /// The room and participant to remove when the connection closes: both, once the
    /// connection has joined.
    pub fn on_disconnect(self) -> (r: Option<(String, String)>)
        ensures
            match (self.current_room, self.current_participant) {
                (Some(room), Some(part)) => r matches Some((a, b)) && a@ == room@ && b@ == part@,
                _ => r is None,
            },
    {
        match (self.current_room, self.current_participant) {
            (Some(room), Some(part)) => Some((room, part)),
            _ => None,
        }
    }
}

/// The answer that the server sends for an offer.
pub fn answer_message(answer_id: &str, sdp: String) -> (m: Message)
    ensures
        m.id@ == answer_id@,
        m.version@ == message_version(),
        m.payload matches MessageType::Answer { sdp: d, participant_id: p } && d.sdp_type
            == SdpType::Answer && d.sdp@ == sdp@ && p@ == "sfu"@,
{
    Message::new(
        answer_id,
        MessageType::Answer {
            sdp: SessionDescription { sdp_type: SdpType::Answer, sdp },
            participant_id: "sfu".to_owned(),
        },
    )
}

/// The renegotiation offer that the server sends, made at `millis`.
pub fn renegotiation_offer(millis: i64, sdp: String) -> (m: Message)
    ensures
        m.id@ == "offer-renegotiate-"@ + signed_decimal(millis as int),
        m.version@ == message_version(),
        m.payload matches MessageType::Offer { sdp: d, participant_id: p } && d.sdp_type
            == SdpType::Offer && d.sdp@ == sdp@ && p@ == "sfu"@,
{
    let mut id = "offer-renegotiate-".to_owned();
    append_signed_decimal(&mut id, millis);
    Message::new(
        id.as_str(),
        MessageType::Offer {
            sdp: SessionDescription { sdp_type: SdpType::Offer, sdp },
            participant_id: "sfu".to_owned(),
        },
    )
}

/// The message that hands one of the server's ICE candidates to a client, made at
/// `millis`.
pub fn server_candidate_message(millis: i64, candidate: IceCandidate) -> (m: Message)
    ensures
        m.id@ == "ice-"@ + signed_decimal(millis as int),
        m.version@ == message_version(),
        m.payload matches MessageType::IceCandidate { candidate: c, participant_id: p } && c
            == candidate && p@ == "sfu"@,
{
    let mut id = "ice-".to_owned();
    append_signed_decimal(&mut id, millis);
    Message::new(
        id.as_str(),
        MessageType::IceCandidate { candidate, participant_id: "sfu".to_owned() },
    )
}

/// The message that tells a room's clients to clear their chat logs.
pub fn clear_logs_message() -> (m: Message)
    ensures
        m.id@ == "system-clear"@,
        m.version@ == message_version(),
        m.payload matches MessageType::Error { code, message } && code == 200 && message@
            == "SYSTEM_COMMAND:CLEAR_LOGS"@,
{
    Message::new(
        "system-clear",
        MessageType::Error { code: 200, message: "SYSTEM_COMMAND:CLEAR_LOGS".to_owned() },
    )
}

/// The reply to a keepalive ping.
pub fn pong_message() -> (m: Message)
    ensures
        m.id@ == "pong"@,
        m.version@ == message_version(),
        m.payload is Pong,
{
    Message::new("pong", MessageType::Pong)
}

/// What the server does with a text frame of a signaling connection.
pub enum FrameStep {
    /// Send this message back on the same connection, and nothing else.
    Reply(Message),
    /// Read the frame as a signaling message.
    Read,
}

/// A ping frame (JSON whose `"type"` is `"ping"`) is answered with a pong and
/// with nothing else; any other frame is read as a message.
pub fn frame_step(text: &str) -> (s: FrameStep)
    ensures
        json_type_field(text@) == Some("ping"@) ==> (s matches FrameStep::Reply(m) && m.id@
            == "pong"@ && m.version@ == message_version() && m.payload is Pong),
        json_type_field(text@) != Some("ping"@) ==> s is Read,
{
    if is_json_of_type(text, "ping") {
        FrameStep::Reply(pong_message())
    } else {
        FrameStep::Read
    }
}

} // verus!
