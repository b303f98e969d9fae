//! Bounded storage of the most recent chat messages.
use vstd::prelude::*;
use std::collections::VecDeque;

use crate::media::message::DataChannelMessage;

verus! {

broadcast use vstd::std_specs::vecdeque::group_vec_dequeue_axioms;

/// The most recent messages, at most `capacity` of them (and at least the last one
/// added).
pub struct TransientStorage {
    messages: VecDeque<DataChannelMessage>,
    capacity: usize,
}

/// The messages held after adding `m` to `stored` under the given capacity: the
/// oldest is dropped first when the storage is full.
pub open spec fn after_add(
    stored: Seq<DataChannelMessage>,
    m: DataChannelMessage,
    capacity: nat,
) -> Seq<DataChannelMessage> {
    if stored.len() >= capacity && stored.len() > 0 {
        stored.subrange(1, stored.len() as int).push(m)
    } else {
        stored.push(m)
    }
}

/// The messages held after adding each of `ms` in turn to an empty storage.
pub open spec fn after_adds(ms: Seq<DataChannelMessage>, capacity: nat) -> Seq<
    DataChannelMessage,
>
    decreases ms.len(),
{
    if ms.len() == 0 {
        Seq::empty()
    } else {
        after_add(after_adds(ms.drop_last(), capacity), ms.last(), capacity)
    }
}

/// The number of messages a storage of this capacity keeps.
pub open spec fn kept(capacity: nat) -> nat {
    if capacity == 0 {
        1
    } else {
        capacity
    }
}

impl TransientStorage {
    /// The messages held, oldest first.
    pub closed spec fn stored(&self) -> Seq<DataChannelMessage> {
        self.messages@
    }

    /// The capacity the storage was made with.
    pub closed spec fn spec_capacity(&self) -> nat {
        self.capacity as nat
    }

    pub fn new(capacity: usize) -> (s: Self)
        ensures
            s.stored() == Seq::<DataChannelMessage>::empty(),
            s.spec_capacity() == capacity,
    {
        Self { messages: VecDeque::with_capacity(capacity), capacity }
    }

    pub fn add_message(&mut self, message: DataChannelMessage)
        ensures
            final(self).stored() == after_add(old(self).stored(), message, old(self).spec_capacity()),
            final(self).spec_capacity() == old(self).spec_capacity(),
    {
        if self.messages.len() >= self.capacity {
            self.messages.pop_front();
        }
        self.messages.push_back(message);
    }

    /// The messages held, oldest first.
    pub fn get_messages(&self) -> (r: Vec<DataChannelMessage>)
        ensures
            r@ == self.stored(),
    {
        let mut r: Vec<DataChannelMessage> = Vec::new();
        let mut i: usize = 0;
        while i < self.messages.len()
            invariant
                i <= self.messages@.len(),
                r@ == self.messages@.take(i as int),
            decreases self.messages@.len() - i,
        {
            r.push(self.messages[i].duplicate());
            assert(self.messages@.take(i + 1) =~= self.messages@.take(i as int).push(
                self.messages@[i as int],
            ));
            i = i + 1;
        }
        assert(self.messages@.take(i as int) =~= self.messages@);
        r
    }

    pub fn clear(&mut self)
        ensures
            final(self).stored() == Seq::<DataChannelMessage>::empty(),
            final(self).spec_capacity() == old(self).spec_capacity(),
    {
        self.messages.clear();
    }
}

/// A storage keeps the most recent messages added to it, oldest first: as many as
/// its capacity (one, for a capacity of zero).
pub proof fn lemma_keeps_most_recent(ms: Seq<DataChannelMessage>, capacity: nat)
    ensures
        after_adds(ms, capacity) == ms.subrange(
            if ms.len() > kept(capacity) {
                ms.len() - kept(capacity)
            } else {
                0
            },
            ms.len() as int,
        ),
    decreases ms.len(),
{
    if ms.len() == 0 {
        assert(ms.subrange(0, 0) =~= Seq::<DataChannelMessage>::empty());
    } else {
        let prev = ms.drop_last();
        lemma_keeps_most_recent(prev, capacity);
        let k = kept(capacity) as int;
        let s = after_adds(prev, capacity);
        if prev.len() >= k {
            assert(s.len() == k);
            assert(s.subrange(1, s.len() as int).push(ms.last()) =~= ms.subrange(
                ms.len() - k,
                ms.len() as int,
            ));
        } else {
            assert(s =~= prev);
            assert(s.push(ms.last()) =~= ms.subrange(0, ms.len() as int));
        }
    }
}

/// A storage never holds more messages than it keeps.
pub proof fn lemma_bounded(ms: Seq<DataChannelMessage>, capacity: nat)
    ensures
        after_adds(ms, capacity).len() <= kept(capacity),
{
    lemma_keeps_most_recent(ms, capacity);
}

} // verus!
