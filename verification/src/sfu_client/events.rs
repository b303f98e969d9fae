//! What the page is told about incoming chat text and remote tracks.
use vstd::prelude::*;
use vstd::string::*;

use crate::sfu_client::signals::chat_notice;
use crate::text::{
    all_digits, chars_of, concat, decimal, lemma_decimal_value, range_equals, range_starts_with,
    starts_with, str_eq,
};

verus! {

broadcast use vstd::string::group_string_axioms;

/// What incoming chat text turns out to be.
pub enum IncomingChat {
    /// A participant left the room.
    ParticipantLeft(String),
    /// The server asks for the chat logs of the room to be cleared.
    ClearLogs,
    /// A chat message: its sender, its text, and the text shown for it.
    Message { sender_id: String, text: String, display: String },
}

/// The prefix of the notice that a participant left.
pub open spec fn left_prefix() -> Seq<char> {
    "participant_left:"@
}

/// The text of the command that clears the chat logs.
pub open spec fn clear_logs_command() -> Seq<char> {
    "SYSTEM_COMMAND:CLEAR_LOGS"@
}

/// The position of the first `:` in `s`, if any.
pub open spec fn first_colon(s: Seq<char>) -> Option<int> {
    if exists|i: int| 0 <= i < s.len() && s[i] == ':' {
        Some(choose|i: int| 0 <= i < s.len() && s[i] == ':' && forall|j: int| 0 <= j < i ==> s[j] != ':')
    } else {
        None
    }
}

/// The sender and the text of `sender:text`; without a colon, the sender is
/// `Participant` and the whole is the text.
pub open spec fn sender_and_text(s: Seq<char>) -> (Seq<char>, Seq<char>) {
    match first_colon(s) {
        Some(i) => (s.subrange(0, i), s.subrange(i + 1, s.len() as int)),
        None => ("Participant"@, s),
    }
}

/// How a sender is shown: as `You` when it is this client.
pub open spec fn sender_label(sender: Seq<char>, me: Option<Seq<char>>) -> Seq<char> {
    if me == Some(sender) {
        "You"@
    } else {
        "Participant"@
    }
}

/// `r` is what the incoming text `data` is, for a client whose id is `me`.
pub open spec fn classifies(data: Seq<char>, me: Option<Seq<char>>, r: IncomingChat) -> bool {
    if starts_with(data, left_prefix()) {
        r matches IncomingChat::ParticipantLeft(p) && p@ == data.subrange(
            left_prefix().len() as int,
            data.len() as int,
        )
    } else {
        let (sender, text) = sender_and_text(data);
        if text == clear_logs_command() {
            r is ClearLogs
        } else {
            match r {
                IncomingChat::Message { sender_id, text: t, display } => {
                    &&& sender_id@ == sender
                    &&& t@ == text
                    &&& display@ == sender_label(sender, me) + seq![':'] + text
                },
                _ => false,
            }
        }
    }
}

/// Sorts incoming chat text (as the SFU client hands it on, `sender:text`) for the
/// client whose id is `me`.
pub fn classify_incoming(data: &str, me: Option<&str>) -> (r: IncomingChat)
    ensures
        classifies(
            data@,
            match me {
                Some(m) => Some(m@),
                None => None,
            },
            r,
        ),
{
    let v = chars_of(data);
    let n = v.len();
    let left = chars_of("participant_left:");
    if range_starts_with(&v, 0, n, &left) {
        proof {
            assert(v@.subrange(0, n as int) =~= v@);
        }
        return IncomingChat::ParticipantLeft(data.substring_char(left.len(), n).to_owned());
    }
    proof {
        assert(v@.subrange(0, n as int) =~= v@);
    }
    let mut i: usize = 0;
    while i < n && v[i] != ':'
        invariant
            v@ == data@,
            n == v@.len(),
            i <= n,
            forall|j: int| 0 <= j < i ==> v@[j] != ':',
        decreases n - i,
    {
        i = i + 1;
    }
    let (sender, text) = if i < n {
        proof {
            assert(exists|k: int| 0 <= k < n && v@[k] == ':');
            let c = choose|k: int| 0 <= k < v@.len() && v@[k] == ':' && forall|j: int|
                0 <= j < k ==> v@[j] != ':';
            assert(c == i) by {
                if c < i {
                    assert(v@[c] != ':');
                } else if c > i {
                    assert(v@[i as int] != ':');
                }
            }
        }
        (data.substring_char(0, i).to_owned(), data.substring_char(i + 1, n).to_owned())
    } else {
        proof {
            reveal_strlit("Participant");
        }
        ("Participant".to_owned(), data.to_owned())
    };
    let text_chars = chars_of(text.as_str());
    let command = chars_of("SYSTEM_COMMAND:CLEAR_LOGS");
    if range_equals(&text_chars, 0, text_chars.len(), &command) {
        proof {
            assert(text_chars@.subrange(0, text_chars@.len() as int) =~= text_chars@);
        }
        return IncomingChat::ClearLogs;
    }
    proof {
        assert(text_chars@.subrange(0, text_chars@.len() as int) =~= text_chars@);
    }
    let is_me = match me {
        Some(m) => str_eq(sender.as_str(), m),
        None => false,
    };
    let label: &str = if is_me {
        "You"
    } else {
        "Participant"
    };
    proof {
        reveal_strlit("You");
        reveal_strlit("Participant");
        reveal_strlit(":");
        assert(label@ == sender_label(
            sender@,
            match me {
                Some(m) => Some(m@),
                None => None,
            },
        ));
    }
    let mut display = concat(label, ":");
    display.append(text.as_str());
    proof {
        assert(":"@ =~= seq![':']);
        assert(display@ == label@ + seq![':'] + text@);
    }
    IncomingChat::Message { sender_id: sender, text, display }
}

/// The text that tells the page about a remote track: `track|participant|kind`,
/// where the participant is read from a stream id `stream-<participant>`, and is
/// `participant` when there is no such stream id.
pub fn track_payload(track_id: &str, stream_id: Option<&str>, kind: &str) -> (r: String)
    ensures
        r@ == track_id@ + seq!['|'] + track_owner(
            match stream_id {
                Some(s) => Some(s@),
                None => None,
            },
        ) + seq!['|'] + kind@,
{
    let prefix = chars_of("stream-");
    let owner: String = match stream_id {
        Some(s) => {
            let v = chars_of(s);
            if range_starts_with(&v, 0, v.len(), &prefix) {
                proof {
                    assert(v@.subrange(0, v@.len() as int) =~= v@);
                }
                s.substring_char(prefix.len(), v.len()).to_owned()
            } else {
                proof {
                    assert(v@.subrange(0, v@.len() as int) =~= v@);
                }
                "participant".to_owned()
            }
        },
        None => "participant".to_owned(),
    };
    proof {
        reveal_strlit("stream-");
        reveal_strlit("participant");
        reveal_strlit("|");
        assert("|"@ =~= seq!['|']);
        assert(owner@ == track_owner(
            match stream_id {
                Some(s) => Some(s@),
                None => None,
            },
        ));
    }
    let mut r = concat(track_id, "|");
    r.append(owner.as_str());
    r.append("|");
    r.append(kind);
    r
}

/// Where an event for the page is delivered.
#[derive(Debug, Clone, Copy, PartialEq, Eq)]
pub enum EventTarget {
    /// The extension's runtime messaging.
    ExtensionRuntime,
    /// A DOM event on the window.
    Window,
}

/// An event goes to the extension runtime on an extension page (one with a
/// `chrome.runtime` whose location's protocol is `chrome-extension:`), and to the
/// window anywhere else.
pub fn event_target(has_runtime: bool, protocol: Option<&str>) -> (t: EventTarget)
    ensures
        t == (if has_runtime && (protocol matches Some(p) && p@ == "chrome-extension:"@) {
            EventTarget::ExtensionRuntime
        } else {
            EventTarget::Window
        }),
{
    if has_runtime {
        if let Some(p) = protocol {
            if str_eq(p, "chrome-extension:") {
                return EventTarget::ExtensionRuntime;
            }
        }
    }
    EventTarget::Window
}

/// The participant that owns a track, read from the id of its stream.
pub open spec fn track_owner(stream_id: Option<Seq<char>>) -> Seq<char> {
    match stream_id {
        Some(s) => if starts_with(s, "stream-"@) {
            s.subrange(7, s.len() as int)
        } else {
            "participant"@
        },
        None => "participant"@,
    }
}

/// Chat text handed on as `sender:text` is read back as the same sender and the
/// same text whenever the sender's id holds no colon.
pub proof fn lemma_sender_and_text_round_trip(sender: Seq<char>, text: Seq<char>)
    requires
        forall|i: int| 0 <= i < sender.len() ==> sender[i] != ':',
    ensures
        sender_and_text(sender + seq![':'] + text) == (sender, text),
{
    let s = sender + seq![':'] + text;
    let n = sender.len() as int;
    assert(s[n] == ':');
    assert(exists|i: int| 0 <= i < s.len() && s[i] == ':');
    let c = choose|i: int| 0 <= i < s.len() && s[i] == ':' && forall|j: int| 0 <= j < i ==> s[j] != ':';
    assert(forall|j: int| 0 <= j < n ==> s[j] != ':') by {
        assert forall|j: int| 0 <= j < n implies s[j] != ':' by {
            assert(s[j] == sender[j]);
        }
    }
    assert(exists|i: int| 0 <= i < s.len() && s[i] == ':' && forall|j: int| 0 <= j < i ==> s[j] != ':');
    assert(c == n) by {
        if c < n {
            assert(s[c] == sender[c]);
        } else if c > n {
            assert(s[n] == ':');
        }
    }
    assert(first_colon(s) == Some(n));
    assert(s.subrange(0, n) =~= sender);
    assert(s.subrange(n + 1, s.len() as int) =~= text);
}

/// The ids that clients take (`user-<millis>`) hold no colon, and chat text from
/// such an id is never taken for a departure notice.
pub proof fn lemma_client_ids_chat_safely(millis: nat, text: Seq<char>)
    ensures
        forall|i: int|
            0 <= i < ("user-"@ + decimal(millis)).len() ==> ("user-"@ + decimal(millis))[i] != ':',
        !starts_with("user-"@ + decimal(millis) + seq![':'] + text, left_prefix()),
{
    reveal_strlit("user-");
    reveal_strlit("participant_left:");
    lemma_decimal_value(millis);
    let id = "user-"@ + decimal(millis);
    assert forall|i: int| 0 <= i < id.len() implies id[i] != ':' by {
        if i >= 5 {
            assert(id[i] == decimal(millis)[i - 5]);
            assert(all_digits(decimal(millis)));
        }
    }
    let s = id + seq![':'] + text;
    assert(s[0] == 'u');
    assert(left_prefix()[0] == 'p');
    if starts_with(s, left_prefix()) {
        assert(s.subrange(0, left_prefix().len() as int)[0] == s[0]);
    }
}

/// A chat message relayed to a client is shown to it as sent: whenever the
/// sender's id holds no colon, its notice is not taken for a departure, and its
/// text is not the clear command, the notice reads back as a message of the same
/// sender with the same text, labelled `You` for the client's own messages and
/// `Participant` otherwise.
pub proof fn lemma_chat_round_trip(
    sender: Seq<char>,
    text: Seq<char>,
    me: Option<Seq<char>>,
    r: IncomingChat,
)
    requires
        forall|i: int| 0 <= i < sender.len() ==> sender[i] != ':',
        !starts_with(chat_notice(sender, text), left_prefix()),
        text != clear_logs_command(),
    ensures
        classifies(chat_notice(sender, text), me, r) <==> (r matches IncomingChat::Message {
            sender_id,
            text: t,
            display,
        } && sender_id@ == sender && t@ == text && display@ == sender_label(sender, me) + seq![
            ':',
        ] + text),
{
    lemma_sender_and_text_round_trip(sender, text);
}

} // verus!
