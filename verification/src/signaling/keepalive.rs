//! The keepalive of the signaling socket: what each tick of its timer does.
use vstd::prelude::*;
use vstd::string::*;

use crate::text::{append_decimal, decimal, opt_chars, str_eq};

verus! {

broadcast use vstd::string::group_string_axioms;

/// The string in the `"type"` field of the JSON object that `text` holds, if
/// `text` is JSON and its `"type"` field is a string.
pub uninterp spec fn json_type_field(text: Seq<char>) -> Option<Seq<char>>;

/// `serde_json::from_str::<serde_json::Value>`, then the string in its `"type"`
/// field (`Value::get` and `Value::as_str`): `None` when the text is not JSON or
/// has no such string. The result depends on the text alone and is named, not
/// spelled out.
#[verifier::external_body]
fn json_type_of(text: &str) -> (r: Option<String>)
    ensures
        opt_chars(r) == json_type_field(text@),
{
    match serde_json::from_str::<serde_json::Value>(text) {
        Ok(value) => value.get("type").and_then(|t| t.as_str()).map(|t| t.to_owned()),
        Err(_) => None,
    }
}

/// Whether `text` is a JSON object whose `"type"` is `kind`: how a ping or a
/// pong frame on the signaling socket is told from a message.
pub fn is_json_of_type(text: &str, kind: &str) -> (b: bool)
    ensures
        b == (json_type_field(text@) == Some(kind@)),
{
    match json_type_of(text) {
        Some(t) => str_eq(t.as_str(), kind),
        None => false,
    }
}

/// The text of the ping frame a client sends at `now_ms`: the JSON object
/// `{"timestamp":<now_ms>.0,"type":"ping"}`, the time written as the number the
/// page's clock gives.
pub open spec fn ping_text(now_ms: u64) -> Seq<char> {
    "{\"timestamp\":"@ + decimal(now_ms as nat) + ".0,\"type\":\"ping\"}"@
}

/// The ping frame a client sends at `now_ms` (milliseconds since the epoch).
pub fn ping_frame(now_ms: u64) -> (r: String)
    ensures
        r@ == ping_text(now_ms),
{
    let mut r = "{\"timestamp\":".to_owned();
    append_decimal(&mut r, now_ms);
    r.append(".0,\"type\":\"ping\"}");
    r
}

/// How long a connection may go without a pong, in milliseconds.
pub open spec fn pong_timeout_ms() -> u64 {
    60_000
}

/// What a tick of the keepalive timer does.
#[derive(Debug, Clone, Copy, PartialEq, Eq)]
pub enum KeepaliveAction {
    /// No pong for too long: close the socket, which leads to a reconnection.
    Close,
    /// Send a ping.
    SendPing,
    /// The socket is not open: do nothing this time.
    Wait,
}

/// The action at time `now_ms` when the last pong came at `last_pong_ms` (both in
/// milliseconds): close a connection that has been silent for more than a
/// minute, else ping when the socket is open.
pub fn keepalive_action(now_ms: u64, last_pong_ms: u64, socket_open: bool) -> (a: KeepaliveAction)
    ensures
        now_ms > last_pong_ms + pong_timeout_ms() ==> a == KeepaliveAction::Close,
        now_ms <= last_pong_ms + pong_timeout_ms() && socket_open ==> a
            == KeepaliveAction::SendPing,
        now_ms <= last_pong_ms + pong_timeout_ms() && !socket_open ==> a == KeepaliveAction::Wait,
{
    if now_ms > last_pong_ms && now_ms - last_pong_ms > 60_000 {
        KeepaliveAction::Close
    } else if socket_open {
        KeepaliveAction::SendPing
    } else {
        KeepaliveAction::Wait
    }
}

} // verus!
