use vstd::prelude::*;

use crate::common::error::Error;
use crate::common::participant::{Participant, ParticipantView};
use crate::string_map::StringMap;

verus! {

/// A room and its participants, each held under its id.
pub struct Room {
    pub id: String,
    pub participants: StringMap<Participant>,
}

/// `r` lists the values of `m`, each once: under keys that are distinct and
/// that are all the keys of `m`.
pub open spec fn lists_values(r: Seq<&Participant>, m: Map<Seq<char>, Participant>) -> bool {
    exists|ks: Seq<Seq<char>>|
        {
            &&& ks.len() == r.len()
            &&& forall|a: int, b: int| 0 <= a < b < ks.len() ==> ks[a] != ks[b]
            &&& forall|a: int|
                0 <= a < ks.len() ==> m.contains_key(#[trigger] ks[a]) && *r[a] == m[ks[a]]
            &&& forall|k: Seq<char>| #[trigger] m.contains_key(k) ==> ks.contains(k)
        }
}

impl Room {
    /// The participants of the room, by id.
    pub open spec fn members(&self) -> Map<Seq<char>, ParticipantView> {
        self.participants@.map_values(|p: Participant| p@)
    }

    pub fn new(id: String) -> (r: Self)
        ensures
            r.id == id,
            r.members() == Map::<Seq<char>, ParticipantView>::empty(),
    {
        let r = Self { id, participants: StringMap::new() };
        assert(r.members() =~= Map::<Seq<char>, ParticipantView>::empty());
        r
    }

    /// Adds a participant, in place of one with the same id if there is one.
    pub fn add_participant(&mut self, participant: Participant) -> (r: Result<(), Error>)
        ensures
            r is Ok,
            final(self).id == old(self).id,
            final(self).members() == old(self).members().insert(participant.id@, participant@),
    {
        let ghost p = participant;
        let key = participant.id.clone();
        self.participants.insert(key, participant);
        assert(self.members() =~= old(self).members().insert(p.id@, p@));
        Ok(())
    }

    /// Removes the participant with the id `participant_id`, and hands it back.
    pub fn remove_participant(&mut self, participant_id: &str) -> (r: Result<
        Option<Participant>,
        Error,
    >)
        ensures
            final(self).id == old(self).id,
            final(self).members() == old(self).members().remove(participant_id@),
            match r {
                Ok(Some(p)) => old(self).members().contains_key(participant_id@) && p@ == old(
                    self,
                ).members()[participant_id@],
                Ok(None) => !old(self).members().contains_key(participant_id@),
                Err(_) => false,
            },
    {
        let removed = self.participants.remove(participant_id);
        assert(self.members() =~= old(self).members().remove(participant_id@));
        Ok(removed)
    }

    /// The participant with the id `participant_id`, if any.
    pub fn get_participant(&self, participant_id: &str) -> (r: Option<&Participant>)
        ensures
            match r {
                Some(p) => self.members().contains_key(participant_id@) && p@
                    == self.members()[participant_id@],
                None => !self.members().contains_key(participant_id@),
            },
    {
        self.participants.get(participant_id)
    }

    /// All participants, each once.
    pub fn list_participants(&self) -> (r: Vec<&Participant>)
        ensures
            lists_values(r@, self.participants@),
    {
        let keys = self.participants.keys();
        let ghost ks = keys@.map_values(|s: &String| s@);
        let mut r: Vec<&Participant> = Vec::new();
        let mut i: usize = 0;
        while i < keys.len()
            invariant
                i <= keys@.len(),
                ks == keys@.map_values(|s: &String| s@),
                r@.len() == i,
                forall|a: int| 0 <= a < keys@.len() ==> #[trigger] self.participants@.contains_key(keys@[a]@),
                forall|a: int|
                    0 <= a < i ==> *r@[a] == self.participants@[keys@[a]@],
            decreases keys@.len() - i,
        {
            let p = self.participants.get(keys[i].as_str());
            r.push(p.unwrap());
            i = i + 1;
        }
        proof {
            assert(ks.len() == r@.len());
            assert forall|k: Seq<char>| #[trigger] self.participants@.contains_key(k) implies ks.contains(k) by {
                let a = choose|a: int| 0 <= a < keys@.len() && keys@[a]@ == k;
                assert(ks[a] == k);
            }
            assert forall|a: int| 0 <= a < ks.len() implies self.participants@.contains_key(#[trigger] ks[a])
                && *r@[a] == self.participants@[ks[a]] by {
                assert(ks[a] == keys@[a]@);
            }
        }
        r
    }
}

} // verus!
