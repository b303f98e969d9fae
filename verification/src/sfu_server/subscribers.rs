//! Which output tracks each published track is forwarded to.
use vstd::prelude::*;

use crate::string_map::StringMap;
use crate::text::str_eq;

verus! {

/// One output track that a published track is forwarded to, with the SSRC and
/// payload type that forwarded packets are rewritten to.
pub struct Subscription<T> {
    pub output_id: String,
    pub output: T,
    pub ssrc: u32,
    pub payload_type: u8,
}

/// `subs` without the subscriptions of output track `output_id`, in order.
pub open spec fn without_output<T>(subs: Seq<Subscription<T>>, output_id: Seq<char>) -> Seq<
    Subscription<T>,
>
    decreases subs.len(),
{
    if subs.len() == 0 {
        Seq::empty()
    } else {
        let rest = without_output(subs.drop_last(), output_id);
        if subs.last().output_id@ == output_id {
            rest
        } else {
            rest.push(subs.last())
        }
    }
}

/// The subscribers of each published track.
pub struct SubscriberTable<T> {
    table: StringMap<Vec<Subscription<T>>>,
}

impl<T> View for SubscriberTable<T> {
    type V = Map<Seq<char>, Seq<Subscription<T>>>;

    closed spec fn view(&self) -> Map<Seq<char>, Seq<Subscription<T>>> {
        self.table@.map_values(|v: Vec<Subscription<T>>| v@)
    }
}

impl<T> SubscriberTable<T> {
    pub fn new() -> (t: Self)
        ensures
            t@ == Map::<Seq<char>, Seq<Subscription<T>>>::empty(),
    {
        let t = Self { table: StringMap::new() };
        assert(t@ =~= Map::<Seq<char>, Seq<Subscription<T>>>::empty());
        t
    }

    /// Adds a subscriber to the end of the list of `track_id`.
    pub fn add_subscriber(
        &mut self,
        track_id: String,
        output_id: String,
        output: T,
        ssrc: u32,
        payload_type: u8,
    )
        ensures
            final(self)@ == old(self)@.insert(
                track_id@,
                (if old(self)@.contains_key(track_id@) {
                    old(self)@[track_id@]
                } else {
                    Seq::empty()
                }).push(Subscription { output_id, output, ssrc, payload_type }),
            ),
    {
        let ghost old_view = self@;
        let s = Subscription { output_id, output, ssrc, payload_type };
        let ghost sv = s;
        let mut list = match self.table.remove(track_id.as_str()) {
            Some(l) => l,
            None => Vec::new(),
        };
        list.push(s);
        let ghost lv = list@;
        self.table.insert(track_id, list);
        assert(self@ =~= old_view.insert(
            track_id@,
            (if old_view.contains_key(track_id@) {
                old_view[track_id@]
            } else {
                Seq::empty()
            }).push(sv),
        ));
    }

    /// Drops the subscriptions of output track `output_id` from the list of
    /// `track_id`; a track without a list is left as it is.
    pub fn remove_subscriber(&mut self, track_id: &str, output_id: &str)
        ensures
            final(self)@ == if old(self)@.contains_key(track_id@) {
                old(self)@.insert(track_id@, without_output(old(self)@[track_id@], output_id@))
            } else {
                old(self)@
            },
    {
        let ghost old_view = self@;
        match self.table.remove(track_id) {
            Some(list) => {
                let ghost l = list@;
                let mut rest = list;
                let mut kept: Vec<Subscription<T>> = Vec::new();
                let mut i: usize = 0;
                proof {
                    assert(l.take(0) =~= Seq::<Subscription<T>>::empty());
                    assert(l.len() == rest.len());
                }
                while rest.len() > 0
                    invariant
                        i <= l.len(),
                        l.len() <= usize::MAX,
                        rest@ == l.subrange(i as int, l.len() as int),
                        kept@ == without_output(l.take(i as int), output_id@),
                    decreases rest@.len(),
                {
                    let sub = rest.remove(0);
                    proof {
                        assert(sub == l[i as int]);
                        assert(l.take(i + 1).drop_last() =~= l.take(i as int));
                        assert(l.take(i + 1).last() == l[i as int]);
                    }
                    if !str_eq(sub.output_id.as_str(), output_id) {
                        kept.push(sub);
                    }
                    i = i + 1;
                    proof {
                        assert(rest@ =~= l.subrange(i as int, l.len() as int));
                    }
                }
                proof {
                    assert(l.take(i as int) =~= l);
                }
                let ghost kv = kept@;
                self.table.insert(track_id.to_owned(), kept);
                proof {
                    assert(self@ =~= old_view.insert(track_id@, without_output(l, output_id@)));
                }
            },
            None => {
                proof {
                    assert(self@ =~= old_view);
                }
            },
        }
    }

    /// The subscribers of `track_id`, in the order they were added.
    pub fn subscribers(&self, track_id: &str) -> (r: Option<&Vec<Subscription<T>>>)
        ensures
            match r {
                Some(v) => self@.contains_key(track_id@) && v@ == self@[track_id@],
                None => !self@.contains_key(track_id@),
            },
    {
        self.table.get(track_id)
    }
}

/// How a packet's RTP header is rewritten for a subscriber: its SSRC and payload
/// type are the subscriber's, and its header extensions (which the subscriber's
/// session did not negotiate) are stripped.
pub struct HeaderRewrite {
    pub ssrc: u32,
    pub payload_type: u8,
    pub keep_extensions: bool,
}

/// The rewrite of the packets forwarded to `sub`.
pub fn header_rewrite<T>(sub: &Subscription<T>) -> (r: HeaderRewrite)
    ensures
        r.ssrc == sub.ssrc,
        r.payload_type == sub.payload_type,
        !r.keep_extensions,
{
    HeaderRewrite { ssrc: sub.ssrc, payload_type: sub.payload_type, keep_extensions: false }
}

/// How many keyframe requests follow a new subscription.
pub open spec fn keyframe_requests() -> u32 {
    5
}

/// After `sent` keyframe requests for a new subscriber: `Some` of the wait in
/// milliseconds that follows the next request, which is to be sent now, or `None`
/// once all five are sent. The first request goes out at once, and each is
/// followed by half a second's wait.
pub fn next_keyframe_request(sent: u32) -> (r: Option<u64>)
    ensures
        sent < keyframe_requests() ==> r == Some(500u64),
        sent >= keyframe_requests() ==> r is None,
{
    if sent < 5 {
        Some(500)
    } else {
        None
    }
}

/// After removal, no subscription of the output track is left.
pub proof fn lemma_without_output_removes<T>(subs: Seq<Subscription<T>>, output_id: Seq<char>)
    ensures
        forall|i: int|
            0 <= i < without_output(subs, output_id).len() ==> (#[trigger] without_output(
                subs,
                output_id,
            )[i]).output_id@ != output_id,
    decreases subs.len(),
{
    if subs.len() > 0 {
        lemma_without_output_removes(subs.drop_last(), output_id);
        let rest = without_output(subs.drop_last(), output_id);
        assert forall|i: int| 0 <= i < without_output(subs, output_id).len() implies (
        #[trigger] without_output(subs, output_id)[i]).output_id@ != output_id by {
            if i < rest.len() {
                assert(without_output(subs, output_id)[i] == rest[i]);
            }
        }
    }
}

/// Removing an output track that is not subscribed changes nothing.
pub proof fn lemma_without_absent_output<T>(subs: Seq<Subscription<T>>, output_id: Seq<char>)
    requires
        forall|i: int| 0 <= i < subs.len() ==> (#[trigger] subs[i]).output_id@ != output_id,
    ensures
        without_output(subs, output_id) == subs,
    decreases subs.len(),
{
    if subs.len() > 0 {
        let p = subs.drop_last();
        assert forall|i: int| 0 <= i < p.len() implies (#[trigger] p[i]).output_id@ != output_id by {
            assert(p[i] == subs[i]);
        }
        lemma_without_absent_output(p, output_id);
        assert(p.push(subs.last()) =~= subs);
    }
}

/// Adding a subscriber and then removing its output track, when that output track
/// was not subscribed, leaves the list as it was.
pub proof fn lemma_remove_undoes_add<T>(subs: Seq<Subscription<T>>, s: Subscription<T>)
    requires
        forall|i: int| 0 <= i < subs.len() ==> (#[trigger] subs[i]).output_id@ != s.output_id@,
    ensures
        without_output(subs.push(s), s.output_id@) == subs,
{
    assert(subs.push(s).drop_last() =~= subs);
    lemma_without_absent_output(subs, s.output_id@);
}

} // verus!
