//! The signaling messages a client sends, and what it does with those it receives.
use vstd::prelude::*;
use vstd::string::*;

use crate::signaling::messages::{
    IceCandidate, Message, MessageType, SdpType, SessionDescription, message_version,
};
use crate::signaling::websocket::socket_outcome;
use crate::text::{append_decimal, chars_of, concat, decimal};

verus! {

/// `prefix` followed by the decimal notation of `n`.
fn prefixed_number(prefix: &str, n: u64) -> (s: String)
    ensures
        s@ == prefix@ + decimal(n as nat),
{
    let mut s = prefix.to_owned();
    append_decimal(&mut s, n);
    s
}

/// The id a client takes when it starts at `millis`: `user-<millis>`.
pub fn participant_id_at(millis: u64) -> (s: String)
    ensures
        s@ == "user-"@ + decimal(millis as nat),
{
    prefixed_number("user-", millis)
}

/// The request to join `room_id`, made at `millis`.
pub fn join_message(millis: u64, room_id: String, participant_id: String) -> (m: Message)
    ensures
        m.id@ == "join-"@ + decimal(millis as nat),
        m.version@ == message_version(),
        m.timestamp == millis,
        m.payload == (MessageType::Join { room_id, participant_id }),
{
    let id = prefixed_number("join-", millis);
    Message::new_at(id.as_str(), MessageType::Join { room_id, participant_id }, millis)
}

/// A chat message to `room_id`, made at `millis`.
pub fn chat_message(millis: u64, room_id: String, participant_id: String, text: String) -> (m:
    Message)
    ensures
        m.id@ == "chat-"@ + decimal(millis as nat),
        m.version@ == message_version(),
        m.timestamp == millis,
        m.payload == (MessageType::Chat { room_id, participant_id, text }),
{
    let id = prefixed_number("chat-", millis);
    Message::new_at(id.as_str(), MessageType::Chat { room_id, participant_id, text }, millis)
}

/// The offer a client sends, made at `millis`.
pub fn offer_message(millis: u64, sdp: String, participant_id: String) -> (m: Message)
    ensures
        m.id@ == "offer-"@ + decimal(millis as nat),
        m.version@ == message_version(),
        m.timestamp == millis,
        m.payload == (MessageType::Offer {
            sdp: SessionDescription { sdp_type: SdpType::Offer, sdp },
            participant_id,
        }),
{
    let id = prefixed_number("offer-", millis);
    Message::new_at(
        id.as_str(),
        MessageType::Offer { sdp: SessionDescription { sdp_type: SdpType::Offer, sdp }, participant_id },
        millis,
    )
}

/// The answer a client sends to an offer from `participant_id`, made at `millis`.
pub fn client_answer_message(millis: u64, sdp: String, participant_id: String) -> (m: Message)
    ensures
        m.id@ == "answer-"@ + decimal(millis as nat),
        m.version@ == message_version(),
        m.timestamp == millis,
        m.payload == (MessageType::Answer {
            sdp: SessionDescription { sdp_type: SdpType::Answer, sdp },
            participant_id,
        }),
{
    let id = prefixed_number("answer-", millis);
    Message::new_at(
        id.as_str(),
        MessageType::Answer {
            sdp: SessionDescription { sdp_type: SdpType::Answer, sdp },
            participant_id,
        },
        millis,
    )
}

/// A local ICE candidate that a client sends, made at `millis`.
pub fn client_candidate_message(millis: u64, candidate: IceCandidate, participant_id: String) -> (m:
    Message)
    ensures
        m.id@ == "ice-"@ + decimal(millis as nat),
        m.version@ == message_version(),
        m.timestamp == millis,
        m.payload == (MessageType::IceCandidate { candidate, participant_id }),
{
    let id = prefixed_number("ice-", millis);
    Message::new_at(id.as_str(), MessageType::IceCandidate { candidate, participant_id }, millis)
}

/// What a client does with a signaling message it receives.
pub enum ClientAction {
    /// Hand this text to the application.
    Notify(String),
    /// Take the offer of `from` as remote description and send back an answer.
    AnswerOffer { sdp: String, from: String },
    /// Take the answer as remote description.
    ApplyAnswer { sdp: String },
    /// Add the remote ICE candidate.
    AddCandidate(IceCandidate),
    /// Nothing.
    Ignore,
}

/// The text a client hands on for a chat message: `sender:text`.
pub open spec fn chat_notice(sender: Seq<char>, text: Seq<char>) -> Seq<char> {
    sender + seq![':'] + text
}

/// The action for a received message: chat text is handed on as `sender:text`, an
/// error's message as it is, an offer is answered, an answer applied, a candidate
/// added; anything else is ignored.
pub fn on_signal(msg: Message) -> (a: ClientAction)
    ensures
        match msg.payload {
            MessageType::Chat { participant_id, text, .. } => a matches ClientAction::Notify(t)
                && t@ == chat_notice(participant_id@, text@),
            MessageType::Error { message, .. } => a matches ClientAction::Notify(t) && t@
                == message@,
            MessageType::Offer { sdp, participant_id } => a matches ClientAction::AnswerOffer {
                sdp: s,
                from: f,
            } && s@ == sdp.sdp@ && f@ == participant_id@,
            MessageType::Answer { sdp, .. } => a matches ClientAction::ApplyAnswer { sdp: s }
                && s@ == sdp.sdp@,
            MessageType::IceCandidate { candidate, .. } => a matches ClientAction::AddCandidate(c)
                && c == candidate,
            _ => a is Ignore,
        },
{
    match msg.payload {
        MessageType::Chat { participant_id, text, .. } => {
            let mut t = concat(participant_id.as_str(), ":");
            t.append(text.as_str());
            proof {
                reveal_strlit(":");
            }
            ClientAction::Notify(t)
        },
        MessageType::Error { message, .. } => ClientAction::Notify(message),
        MessageType::Offer { sdp, participant_id } => ClientAction::AnswerOffer {
            sdp: sdp.sdp,
            from: participant_id,
        },
        MessageType::Answer { sdp, .. } => ClientAction::ApplyAnswer { sdp: sdp.sdp },
        MessageType::IceCandidate { candidate, .. } => ClientAction::AddCandidate(candidate),
        _ => ClientAction::Ignore,
    }
}

/// `text` holds `part` somewhere.
pub open spec fn contains_text(text: Seq<char>, part: Seq<char>) -> bool {
    exists|i: int| 0 <= i <= text.len() - part.len() && #[trigger] text.subrange(i, i + part.len()) == part
}

/// Whether `text` holds `part` somewhere.
pub fn contains_str(text: &str, part: &str) -> (b: bool)
    ensures
        b == contains_text(text@, part@),
{
    let t = chars_of(text);
    let p = chars_of(part);
    if p.len() > t.len() {
        return false;
    }
    if p.len() == 0 {
        assert(text@.subrange(0int, 0int + part@.len()) =~= part@);
        return true;
    }
    let mut i: usize = 0;
    while i <= t.len() - p.len()
        invariant
            t@ == text@,
            p@ == part@,
            1 <= p@.len() <= t@.len() <= usize::MAX,
            i <= t@.len() - p@.len() + 1,
            forall|j: int| 0 <= j < i ==> #[trigger] t@.subrange(j, j + p@.len()) != p@,
        decreases t@.len() - p@.len() + 1 - i,
    {
        let mut k: usize = 0;
        let mut same = true;
        while k < p.len()
            invariant
                t@ == text@,
                p@ == part@,
                i + p@.len() <= t@.len() <= usize::MAX,
                k <= p@.len(),
                same == forall|m: int| 0 <= m < k ==> t@[i + m] == p@[m],
            decreases p@.len() - k,
        {
            if t[i + k] != p[k] {
                same = false;
            }
            k = k + 1;
        }
        if same {
            assert(t@.subrange(i as int, i + p@.len()) =~= p@);
            return true;
        }
        proof {
            let m = choose|m: int| 0 <= m < p@.len() && t@[i + m] != p@[m];
            assert(t@.subrange(i as int, i + p@.len())[m] != p@[m]);
        }
        i = i + 1;
    }
    false
}

/// What to do after a try at sending the join request failed with `error_text`.
pub enum JoinStep {
    /// The socket is not open yet: wait, then try again.
    WaitAndRetry,
    /// The socket is not open yet and the tries are used up: wait, then give up.
    WaitAndGiveUp,
    /// Some other failure: stop.
    Stop,
}

/// The number of tries at sending the join request.
pub open spec fn join_tries() -> u32 {
    20
}

/// The step after try number `attempt` (counting from 0) failed with `error_text`:
/// a socket that is not open yet is waited for, up to twenty tries in all; any other
/// failure ends the tries.
pub fn join_failure_step(attempt: u32, error_text: &str) -> (s: JoinStep)
    ensures
        !contains_text(error_text@, "not open"@) ==> s is Stop,
        contains_text(error_text@, "not open"@) && attempt + 1 < join_tries() ==> s is WaitAndRetry,
        contains_text(error_text@, "not open"@) && attempt + 1 >= join_tries() ==> s is WaitAndGiveUp,
{
    if !contains_str(error_text, "not open") {
        JoinStep::Stop
    } else if attempt < 19 {
        JoinStep::WaitAndRetry
    } else {
        JoinStep::WaitAndGiveUp
    }
}

/// A join request sent before the signaling socket is open fails with an error
/// whose text the join retries on: the client waits for the socket instead of
/// giving up, up to the last try.
pub proof fn lemma_unopened_socket_is_retried()
    ensures
        socket_outcome(Some(false)) matches Err(e) && contains_text(e.text(), "not open"@),
{
    reveal_strlit("WebSocket not open");
    reveal_strlit("not open");
    reveal_strlit("Network error: ");
    let t = "Network error: "@ + "WebSocket not open"@;
    assert(t.subrange(25, 33) =~= "not open"@);
    assert(t.subrange(25, 25 + "not open"@.len() as int) == "not open"@);
    assert(contains_text(t, "not open"@));
}

} // verus!
