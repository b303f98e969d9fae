//! The participants whose streams a client is subscribed to.
use vstd::prelude::*;
use vstd::string::*;

use crate::signaling::messages::{Message, MessageType, message_version};
use crate::string_map::StringMap;
use crate::text::concat;

verus! {

/// The set of participants whose streams are subscribed to.
pub struct Subscriptions {
    streams: StringMap<()>,
}

impl View for Subscriptions {
    type V = Set<Seq<char>>;

    closed spec fn view(&self) -> Set<Seq<char>> {
        self.streams@.dom()
    }
}

impl Subscriptions {
    pub fn new() -> (s: Self)
        ensures
            s@ == Set::<Seq<char>>::empty(),
    {
        let s = Self { streams: StringMap::new() };
        assert(s@ =~= Set::<Seq<char>>::empty());
        s
    }

    /// Subscribes to `target`'s stream on behalf of `me`. When not yet subscribed,
    /// records it and gives the request to send (id `sub-<target>`, stamped with
    /// `millis`); when already subscribed, changes nothing and gives no request.
    pub fn subscribe(&mut self, target: &str, me: &str, millis: u64) -> (r: Option<Message>)
        ensures
            final(self)@ == old(self)@.insert(target@),
            old(self)@.contains(target@) ==> r is None,
            !old(self)@.contains(target@) ==> (r matches Some(m) && m.id@ == "sub-"@ + target@
                && m.version@ == message_version() && m.timestamp == millis && (m.payload matches MessageType::Subscribe {
                target_id: t,
                participant_id: p,
            } && t@ == target@ && p@ == me@)),
    {
        if self.streams.contains_key(target) {
            proof {
                assert(self@ =~= old(self)@.insert(target@));
            }
            return None;
        }
        self.streams.insert(target.to_owned(), ());
        proof {
            assert(self@ =~= old(self)@.insert(target@));
        }
        let id = concat("sub-", target);
        Some(
            Message::new_at(
                id.as_str(),
                MessageType::Subscribe { target_id: target.to_owned(), participant_id: me.to_owned() },
                millis,
            ),
        )
    }

    /// Unsubscribes from `target`'s stream. When subscribed, removes it and gives the
    /// request to send (id `unsub-<target>`, on behalf of `me`, stamped with
    /// `millis`); otherwise changes nothing and gives no request.
    pub fn unsubscribe(&mut self, target: &str, millis: u64) -> (r: Option<Message>)
        ensures
            final(self)@ == old(self)@.remove(target@),
            !old(self)@.contains(target@) ==> r is None,
            old(self)@.contains(target@) ==> (r matches Some(m) && m.id@ == "unsub-"@ + target@
                && m.version@ == message_version() && m.timestamp == millis && (m.payload matches MessageType::Unsubscribe {
                target_id: t,
                participant_id: p,
            } && t@ == target@ && p@ == "me"@)),
    {
        let removed = self.streams.remove(target);
        proof {
            assert(self@ =~= old(self)@.remove(target@));
        }
        match removed {
            None => None,
            Some(_) => {
                let id = concat("unsub-", target);
                Some(
                    Message::new_at(
                        id.as_str(),
                        MessageType::Unsubscribe {
                            target_id: target.to_owned(),
                            participant_id: "me".to_owned(),
                        },
                        millis,
                    ),
                )
            },
        }
    }

    /// Whether `target`'s stream is subscribed to.
    pub fn is_subscribed(&self, target: &str) -> (b: bool)
        ensures
            b == self@.contains(target@),
    {
        self.streams.contains_key(target)
    }

    /// The participants subscribed to, each once.
    pub fn subscribed(&self) -> (r: Vec<String>)
        ensures
            forall|a: int, b: int| 0 <= a < b < r@.len() ==> r@[a]@ != r@[b]@,
            forall|a: int| 0 <= a < r@.len() ==> self@.contains(#[trigger] r@[a]@),
            forall|k: Seq<char>|
                #[trigger] self@.contains(k) ==> exists|a: int| 0 <= a < r@.len() && r@[a]@ == k,
    {
        let keys = self.streams.keys();
        let mut r: Vec<String> = Vec::new();
        let mut i: usize = 0;
        while i < keys.len()
            invariant
                i <= keys@.len(),
                r@.len() == i,
                forall|a: int| 0 <= a < i ==> #[trigger] r@[a]@ == keys@[a]@,
            decreases keys@.len() - i,
        {
            r.push(keys[i].clone());
            i = i + 1;
        }
        proof {
            assert forall|a: int, b: int| 0 <= a < b < r@.len() implies r@[a]@ != r@[b]@ by {
                assert(r@[a]@ == keys@[a]@);
                assert(r@[b]@ == keys@[b]@);
            }
            assert forall|a: int| 0 <= a < r@.len() implies self@.contains(#[trigger] r@[a]@) by {
                assert(r@[a]@ == keys@[a]@);
                assert(self.streams@.contains_key(keys@[a]@));
            }
            assert forall|k: Seq<char>| #[trigger] self@.contains(k) implies exists|a: int|
                0 <= a < r@.len() && r@[a]@ == k by {
                assert(self.streams@.contains_key(k));
                let a = choose|a: int| 0 <= a < keys@.len() && keys@[a]@ == k;
                assert(r@[a]@ == k);
            }
        }
        r
    }
}

/// Subscribing and then unsubscribing a participant that was not subscribed leaves
/// the subscriptions as they were.
pub proof fn lemma_unsubscribe_undoes_subscribe(s: Set<Seq<char>>, target: Seq<char>)
    requires
        !s.contains(target),
    ensures
        s.insert(target).remove(target) == s,
{
    assert(s.insert(target).remove(target) =~= s);
}

/// Subscribing twice is the same as subscribing once.
pub proof fn lemma_subscribe_idempotent(s: Set<Seq<char>>, target: Seq<char>)
    ensures
        s.insert(target).insert(target) == s.insert(target),
{
    assert(s.insert(target).insert(target) =~= s.insert(target));
}

} // verus!
