//! The decisions the server makes while it forwards a published track to another
//! participant: how the output track is named, which payload type it is sent
//! under, when its sender's parameters are ready, and which renegotiation runs.
use vstd::prelude::*;
use vstd::string::*;

use crate::sfu_client::events::track_owner;
use crate::text::{concat, str_eq};

verus! {

broadcast use vstd::string::group_string_axioms;

/// The id of the output track that carries `publisher`'s track `track_id`.
pub open spec fn output_track_id(publisher: Seq<char>, track_id: Seq<char>) -> Seq<char> {
    publisher + seq!['_'] + track_id
}

/// The id of the stream under which `publisher`'s tracks are forwarded.
pub open spec fn output_stream_id(publisher: Seq<char>) -> Seq<char> {
    "stream-"@ + publisher
}

/// The track id and the stream id of the output track that forwards `publisher`'s
/// track `track_id` to another participant: `<publisher>_<track_id>` and
/// `stream-<publisher>`.
pub fn output_track_ids(publisher: &str, track_id: &str) -> (r: (String, String))
    ensures
        r.0@ == output_track_id(publisher@, track_id@),
        r.1@ == output_stream_id(publisher@),
{
    let mut id = concat(publisher, "_");
    id.append(track_id);
    proof {
        reveal_strlit("_");
        assert("_"@ =~= seq!['_']);
    }
    (id, concat("stream-", publisher))
}

/// A client that receives a forwarded track reads its publisher back from the
/// stream id the server gave it.
pub proof fn lemma_stream_id_names_publisher(publisher: Seq<char>)
    ensures
        track_owner(Some(output_stream_id(publisher))) == publisher,
{
    reveal_strlit("stream-");
    let s = output_stream_id(publisher);
    assert(s.subrange(0, 7) =~= "stream-"@);
    assert(s.subrange(7, s.len() as int) =~= publisher);
}

/// A codec that a sender offers: its MIME type, its format parameters and the
/// payload type it is sent under.
pub struct CodecParams {
    pub mime_type: String,
    pub sdp_fmtp_line: String,
    pub payload_type: u8,
}

pub struct CodecView {
    pub mime_type: Seq<char>,
    pub sdp_fmtp_line: Seq<char>,
    pub payload_type: u8,
}

impl View for CodecParams {
    type V = CodecView;

    open spec fn view(&self) -> CodecView {
        CodecView {
            mime_type: self.mime_type@,
            sdp_fmtp_line: self.sdp_fmtp_line@,
            payload_type: self.payload_type,
        }
    }
}

/// The code of `c` with ASCII upper-case letters taken to lower case.
pub open spec fn ascii_fold(c: char) -> u32 {
    if 'A' <= c && c <= 'Z' {
        (c as u32 + 32) as u32
    } else {
        c as u32
    }
}

/// `a` and `b` are equal but for the case of ASCII letters.
pub open spec fn same_ignoring_ascii_case(a: Seq<char>, b: Seq<char>) -> bool {
    &&& a.len() == b.len()
    &&& forall|i: int| 0 <= i < a.len() ==> ascii_fold(#[trigger] a[i]) == ascii_fold(b[i])
}

/// Whether `a` and `b` are equal but for the case of ASCII letters.
pub fn eq_ignore_ascii_case(a: &str, b: &str) -> (r: bool)
    ensures
        r == same_ignoring_ascii_case(a@, b@),
{
    let n = a.unicode_len();
    if n != b.unicode_len() {
        return false;
    }
    let mut i: usize = 0;
    while i < n
        invariant
            n == a@.len(),
            n == b@.len(),
            i <= n,
            forall|j: int| 0 <= j < i ==> ascii_fold(#[trigger] a@[j]) == ascii_fold(b@[j]),
        decreases n - i,
    {
        let x = a.get_char(i);
        let y = b.get_char(i);
        let fx: u32 = if 'A' <= x && x <= 'Z' {
            x as u32 + 32
        } else {
            x as u32
        };
        let fy: u32 = if 'A' <= y && y <= 'Z' {
            y as u32 + 32
        } else {
            y as u32
        };
        if fx != fy {
            return false;
        }
        i = i + 1;
    }
    true
}

/// The payload type chosen from one reading of the sender's codecs, starting
/// from `current`: the first codec of the publisher's MIME type (ignoring ASCII
/// case) whose format parameters match, or any when the publisher has none,
/// decides; until one does, a codec of the MIME type is kept as a fallback
/// while no payload type is chosen (`current` is 0).
pub open spec fn pick_payload_type(
    codecs: Seq<CodecView>,
    mime: Seq<char>,
    fmtp: Seq<char>,
    current: u8,
) -> u8
    decreases codecs.len(),
{
    if codecs.len() == 0 {
        current
    } else {
        let c = codecs[0];
        if same_ignoring_ascii_case(c.mime_type, mime) && (fmtp.len() == 0 || c.sdp_fmtp_line
            == fmtp) {
            c.payload_type
        } else {
            let next = if same_ignoring_ascii_case(c.mime_type, mime) && current == 0 {
                c.payload_type
            } else {
                current
            };
            pick_payload_type(codecs.drop_first(), mime, fmtp, next)
        }
    }
}

pub open spec fn codec_views(codecs: Seq<CodecParams>) -> Seq<CodecView> {
    codecs.map_values(|c: CodecParams| c@)
}

/// A codec that matches exactly is chosen over any fallback.
pub proof fn lemma_exact_match_wins(
    codecs: Seq<CodecView>,
    mime: Seq<char>,
    fmtp: Seq<char>,
    current: u8,
    k: int,
)
    requires
        0 <= k < codecs.len(),
        same_ignoring_ascii_case(codecs[k].mime_type, mime),
        fmtp.len() == 0 || codecs[k].sdp_fmtp_line == fmtp,
        forall|j: int|
            0 <= j < k ==> !(same_ignoring_ascii_case(#[trigger] codecs[j].mime_type, mime) && (
            fmtp.len() == 0 || codecs[j].sdp_fmtp_line == fmtp)),
    ensures
        pick_payload_type(codecs, mime, fmtp, current) == codecs[k].payload_type,
    decreases k,
{
    if k > 0 {
        let c = codecs[0];
        assert(!(same_ignoring_ascii_case(codecs[0].mime_type, mime) && (fmtp.len() == 0
            || codecs[0].sdp_fmtp_line == fmtp)));
        let next = if same_ignoring_ascii_case(c.mime_type, mime) && current == 0 {
            c.payload_type
        } else {
            current
        };
        let rest = codecs.drop_first();
        assert forall|j: int| 0 <= j < k - 1 implies !(same_ignoring_ascii_case(
            #[trigger] rest[j].mime_type,
            mime,
        ) && (fmtp.len() == 0 || rest[j].sdp_fmtp_line == fmtp)) by {
            assert(rest[j] == codecs[j + 1]);
        }
        lemma_exact_match_wins(rest, mime, fmtp, next, k - 1);
    }
}

/// Chooses the payload type from one reading of the sender's codecs (see
/// [`pick_payload_type`]).
pub fn choose_payload_type(
    codecs: &Vec<CodecParams>,
    mime: &str,
    fmtp: &str,
    current: u8,
) -> (pt: u8)
    ensures
        pt == pick_payload_type(codec_views(codecs@), mime@, fmtp@, current),
{
    let ghost all = codec_views(codecs@);
    let n = codecs.len();
    let fmtp_empty = fmtp.unicode_len() == 0;
    let mut target = current;
    let mut i: usize = 0;
    proof {
        assert(all.subrange(0, n as int) =~= all);
    }
    while i < n
        invariant
            n == codecs@.len(),
            all == codec_views(codecs@),
            fmtp_empty == (fmtp@.len() == 0),
            i <= n,
            pick_payload_type(all, mime@, fmtp@, current) == pick_payload_type(
                all.subrange(i as int, n as int),
                mime@,
                fmtp@,
                target,
            ),
        decreases n - i,
    {
        let c = &codecs[i];
        proof {
            let rest = all.subrange(i as int, n as int);
            assert(rest[0] == c@);
            assert(rest.drop_first() =~= all.subrange(i + 1, n as int));
        }
        if eq_ignore_ascii_case(c.mime_type.as_str(), mime) {
            if fmtp_empty || str_eq(c.sdp_fmtp_line.as_str(), fmtp) {
                return c.payload_type;
            }
            if target == 0 {
                target = c.payload_type;
            }
        }
        i = i + 1;
    }
    target
}

/// How many times the sender's parameters are read before giving up.
pub open spec fn max_polls() -> u32 {
    50
}

/// The state of binding an output track to its sender: the SSRC and payload type
/// found so far, and the readings taken.
pub struct TrackBinding {
    pub ssrc: u32,
    pub payload_type: u8,
    pub polls: u32,
}

/// What to do after a reading of the sender's parameters.
pub enum BindingStep {
    /// Forward the track with this SSRC and payload type.
    Ready { ssrc: u32, payload_type: u8 },
    /// Wait a moment and read the parameters again.
    PollAgain,
    /// Give up on forwarding the track to this participant.
    Abort,
}

impl TrackBinding {
    pub fn new() -> (b: Self)
        ensures
            b.ssrc == 0,
            b.payload_type == 0,
            b.polls == 0,
    {
        Self { ssrc: 0, payload_type: 0, polls: 0 }
    }

    /// Takes one reading of the sender's parameters: the SSRC of its first
    /// encoding, if it has one, and its codecs, matched against the publisher's
    /// MIME type and format parameters. Both found: ready. Otherwise another
    /// reading, up to the fiftieth; then a missing SSRC aborts, and so does a
    /// missing payload type when `need_payload_type` holds (else the track is
    /// forwarded under payload type 0).
    pub fn observe(
        &mut self,
        first_ssrc: Option<u32>,
        codecs: &Vec<CodecParams>,
        mime: &str,
        fmtp: &str,
        need_payload_type: bool,
    ) -> (s: BindingStep)
        requires
            old(self).polls < max_polls(),
        ensures
            final(self).polls == old(self).polls + 1,
            final(self).ssrc == match first_ssrc {
                Some(x) => x,
                None => old(self).ssrc,
            },
            final(self).payload_type == pick_payload_type(
                codec_views(codecs@),
                mime@,
                fmtp@,
                old(self).payload_type,
            ),
            final(self).ssrc != 0 && final(self).payload_type != 0 ==> s == (BindingStep::Ready {
                ssrc: final(self).ssrc,
                payload_type: final(self).payload_type,
            }),
            !(final(self).ssrc != 0 && final(self).payload_type != 0) && final(self).polls
                < max_polls() ==> s is PollAgain,
            !(final(self).ssrc != 0 && final(self).payload_type != 0) && final(self).polls
                == max_polls() ==> (if final(self).ssrc == 0 || (need_payload_type
                && final(self).payload_type == 0) {
                s is Abort
            } else {
                s == (BindingStep::Ready {
                    ssrc: final(self).ssrc,
                    payload_type: final(self).payload_type,
                })
            }),
    {
        if let Some(x) = first_ssrc {
            self.ssrc = x;
        }
        self.payload_type = choose_payload_type(codecs, mime, fmtp, self.payload_type);
        self.polls = self.polls + 1;
        if self.ssrc != 0 && self.payload_type != 0 {
            return BindingStep::Ready { ssrc: self.ssrc, payload_type: self.payload_type };
        }
        if self.polls < 50 {
            return BindingStep::PollAgain;
        }
        if self.ssrc == 0 || (need_payload_type && self.payload_type == 0) {
            BindingStep::Abort
        } else {
            BindingStep::Ready { ssrc: self.ssrc, payload_type: self.payload_type }
        }
    }
}

/// The generation that follows `g`; the counter wraps as an atomic add does.
pub open spec fn next_generation(g: u64) -> u64 {
    ((g + 1) % 0x1_0000_0000_0000_0000) as u64
}

/// The counter that lets only the latest of several close track arrivals
/// renegotiate with a participant.
pub struct RenegotiationDebounce {
    pub generation: u64,
}

impl RenegotiationDebounce {
    pub fn new() -> (d: Self)
        ensures
            d.generation == 0,
    {
        Self { generation: 0 }
    }

    /// A track arrived: it takes the next generation as its ticket, and waits.
    pub fn begin(&mut self) -> (ticket: u64)
        ensures
            final(self).generation == next_generation(old(self).generation),
            ticket == final(self).generation,
    {
        self.generation = self.generation.wrapping_add(1);
        self.generation
    }

    /// After the wait: renegotiate only when no later track took a generation.
    pub fn is_current(&self, ticket: u64) -> (b: bool)
        ensures
            b == (ticket == self.generation),
    {
        ticket == self.generation
    }
}

/// Of two tracks that arrive one after the other, the ticket of the first is no
/// longer current once the second has taken its own: only the later one
/// renegotiates.
pub proof fn lemma_later_arrival_supersedes(g: u64)
    ensures
        next_generation(g) != next_generation(next_generation(g)),
{
}

} // verus!
