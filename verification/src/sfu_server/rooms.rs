//! The rooms of the SFU server and who is in each.
use vstd::prelude::*;

use crate::keyed::{
    Keyed, has_key, find_key, keyed_map, keys_distinct, lemma_keyed_at, lemma_keyed_empty, lemma_keyed_push,
    lemma_keyed_len, lemma_keyed_remove, lemma_keyed_update,
};
use crate::text::str_eq;

verus! {

/// A participant of a room on the server, with what the server keeps for it.
pub struct ServerParticipant<P> {
    pub id: String,
    pub data: P,
}

impl<P> Keyed for ServerParticipant<P> {
    open spec fn key(&self) -> Seq<char> {
        self.id@
    }

    fn key_str(&self) -> (s: &str) {
        self.id.as_str()
    }
}

/// A room on the server.
pub struct ServerRoom<P> {
    pub id: String,
    pub participants: Vec<ServerParticipant<P>>,
}

impl<P> Keyed for ServerRoom<P> {
    open spec fn key(&self) -> Seq<char> {
        self.id@
    }

    fn key_str(&self) -> (s: &str) {
        self.id.as_str()
    }
}

/// The participants of a room, by id.
pub open spec fn room_members<P>(r: ServerRoom<P>) -> Map<Seq<char>, P> {
    keyed_map(r.participants@).map_values(|p: ServerParticipant<P>| p.data)
}

/// Every room has someone in it.
pub open spec fn no_empty_rooms<P>(rooms: Map<Seq<char>, Map<Seq<char>, P>>) -> bool {
    forall|k: Seq<char>| #[trigger] rooms.contains_key(k) ==> rooms[k] != Map::<Seq<char>, P>::empty()
}

/// The rooms after `participant_id` joins `room_id` with `data`.
pub open spec fn after_join<P>(
    rooms: Map<Seq<char>, Map<Seq<char>, P>>,
    room_id: Seq<char>,
    participant_id: Seq<char>,
    data: P,
) -> Map<Seq<char>, Map<Seq<char>, P>> {
    let members = if rooms.contains_key(room_id) {
        rooms[room_id]
    } else {
        Map::empty()
    };
    rooms.insert(room_id, members.insert(participant_id, data))
}

/// The rooms after `participant_id` leaves `room_id`: a room left empty is removed.
pub open spec fn after_leave<P>(
    rooms: Map<Seq<char>, Map<Seq<char>, P>>,
    room_id: Seq<char>,
    participant_id: Seq<char>,
) -> Map<Seq<char>, Map<Seq<char>, P>> {
    if rooms.contains_key(room_id) {
        let members = rooms[room_id].remove(participant_id);
        if members == Map::<Seq<char>, P>::empty() {
            rooms.remove(room_id)
        } else {
            rooms.insert(room_id, members)
        }
    } else {
        rooms
    }
}

/// `list` holds each member of `members` once, with its data.
pub open spec fn lists_members<P>(list: Seq<&ServerParticipant<P>>, members: Map<Seq<char>, P>) -> bool {
    &&& forall|i: int, j: int| 0 <= i < j < list.len() ==> list[i].id@ != list[j].id@
    &&& forall|i: int|
        0 <= i < list.len() ==> #[trigger] members.contains_key(list[i].id@) && members[list[i].id@]
            == list[i].data
    &&& forall|k: Seq<char>|
        #[trigger] members.contains_key(k) ==> exists|i: int| 0 <= i < list.len() && list[i].id@ == k
}

/// `list` holds each of `ids` once, and nothing else.
pub open spec fn lists_ids(list: Seq<String>, ids: Set<Seq<char>>) -> bool {
    &&& forall|a: int, b: int| 0 <= a < b < list.len() ==> list[a]@ != list[b]@
    &&& forall|a: int| 0 <= a < list.len() ==> ids.contains(#[trigger] list[a]@)
    &&& forall|k: Seq<char>| #[trigger] ids.contains(k) ==> exists|a: int| 0 <= a < list.len() && list[a]@ == k
}

/// The rooms of the server; a room exists while someone is in it.
pub struct RoomManager<P> {
    rooms: Vec<ServerRoom<P>>,
}

impl<P> View for RoomManager<P> {
    type V = Map<Seq<char>, Map<Seq<char>, P>>;

    closed spec fn view(&self) -> Map<Seq<char>, Map<Seq<char>, P>> {
        keyed_map(self.rooms@).map_values(|r: ServerRoom<P>| room_members(r))
    }
}

pub open spec fn room_ok<P>(r: ServerRoom<P>) -> bool {
    keys_distinct(r.participants@) && r.participants@.len() > 0
}

proof fn lemma_members_empty<P>(r: ServerRoom<P>)
    requires
        keys_distinct(r.participants@),
    ensures
        (r.participants@.len() == 0) == (room_members(r) == Map::<Seq<char>, P>::empty()),
{
    lemma_keyed_empty(r.participants@);
    if r.participants@.len() > 0 {
        lemma_keyed_at(r.participants@, 0);
        assert(room_members(r).contains_key(r.participants@[0].key()));
    } else {
        assert(room_members(r) =~= Map::<Seq<char>, P>::empty());
    }
}

impl<P> RoomManager<P> {
    #[verifier::type_invariant]
    spec fn inv(self) -> bool {
        &&& keys_distinct(self.rooms@)
        &&& forall|i: int| 0 <= i < self.rooms@.len() ==> room_ok(#[trigger] self.rooms@[i])
    }

    proof fn lemma_view_at(&self, i: int)
        requires
            self.inv(),
            0 <= i < self.rooms@.len(),
        ensures
            self@.contains_key(self.rooms@[i].id@),
            self@[self.rooms@[i].id@] == room_members(self.rooms@[i]),
    {
        lemma_keyed_at(self.rooms@, i);
    }

    proof fn lemma_no_empty(&self)
        requires
            self.inv(),
        ensures
            no_empty_rooms(self@),
    {
        assert forall|k: Seq<char>| #[trigger] self@.contains_key(k) implies self@[k] != Map::<
            Seq<char>,
            P,
        >::empty() by {
            let j = choose|j: int| 0 <= j < self.rooms@.len() && #[trigger] self.rooms@[j].key() == k;
            lemma_keyed_at(self.rooms@, j);
            assert(room_ok(self.rooms@[j]));
            lemma_members_empty(self.rooms@[j]);
        }
    }

    pub fn new() -> (m: Self)
        ensures
            m@ == Map::<Seq<char>, Map<Seq<char>, P>>::empty(),
            no_empty_rooms(m@),
    {
        let m = Self { rooms: Vec::new() };
        assert(m@ =~= Map::<Seq<char>, Map<Seq<char>, P>>::empty());
        m
    }

    /// Adds `participant_id` to `room_id` with `data`, creating the room if it does
    /// not exist and replacing a participant of the same id.
    pub fn join_room(&mut self, room_id: String, participant_id: String, data: P)
        ensures
            final(self)@ == after_join(old(self)@, room_id@, participant_id@, data),
            no_empty_rooms(final(self)@),
    {
        proof {
            use_type_invariant(&*self);
        }
        let ghost old_rooms = self.rooms@;
        let ghost old_view = self@;
        let p = ServerParticipant { id: participant_id, data };
        let ghost pv = p;
        let mut rooms: Vec<ServerRoom<P>> = Vec::new();
        std::mem::swap(&mut rooms, &mut self.rooms);
        match find_key(&rooms, room_id.as_str()) {
            Some(i) => {
                let mut room = rooms.remove(i);
                proof {
                    assert(room == old_rooms[i as int]);
                    assert(room_ok(room));
                    lemma_keyed_at(old_rooms, i as int);
                }
                let ghost old_parts = room.participants@;
                match find_key(&room.participants, p.id.as_str()) {
                    Some(j) => {
                        room.participants.set(j, p);
                        proof {
                            assert(room.participants@ == old_parts.update(j as int, pv));
                            lemma_keyed_update(old_parts, j as int, pv);
                        }
                    },
                    None => {
                        room.participants.push(p);
                        proof {
                            lemma_keyed_push(old_parts, pv);
                        }
                    },
                }
                proof {
                    assert(room_members(room) =~= old_view[room_id@].insert(pv.id@, pv.data));
                    assert(room_ok(room));
                }
                let ghost new_room = room;
                rooms.insert(i, room);
                proof {
                    assert(rooms@ =~= old_rooms.update(i as int, new_room));
                    lemma_keyed_update(old_rooms, i as int, new_room);
                }
                self.rooms = rooms;
                proof {
                    assert(self@ =~= after_join(old_view, room_id@, pv.id@, pv.data));
                }
            },
            None => {
                let mut parts: Vec<ServerParticipant<P>> = Vec::new();
                parts.push(p);
                let room = ServerRoom { id: room_id, participants: parts };
                let ghost new_room = room;
                proof {
                    assert(room.participants@ =~= Seq::<ServerParticipant<P>>::empty().push(pv));
                    lemma_keyed_push(Seq::<ServerParticipant<P>>::empty(), pv);
                    assert(keyed_map(Seq::<ServerParticipant<P>>::empty()) =~= Map::<
                        Seq<char>,
                        ServerParticipant<P>,
                    >::empty());
                    assert(room_members(room) =~= Map::<Seq<char>, P>::empty().insert(pv.id@, pv.data));
                }
                rooms.push(room);
                proof {
                    lemma_keyed_push(old_rooms, new_room);
                }
                self.rooms = rooms;
                proof {
                    assert(self@ =~= after_join(old_view, room_id@, pv.id@, pv.data));
                }
            },
        }
        proof {
            use_type_invariant(&*self);
            self.lemma_no_empty();
        }
    }

    /// Removes `participant_id` from `room_id`, and the room with it once it is empty.
    pub fn leave_room(&mut self, room_id: &str, participant_id: &str)
        ensures
            final(self)@ == after_leave(old(self)@, room_id@, participant_id@),
            no_empty_rooms(final(self)@),
    {
        proof {
            use_type_invariant(&*self);
        }
        let ghost old_rooms = self.rooms@;
        let ghost old_view = self@;
        let mut rooms: Vec<ServerRoom<P>> = Vec::new();
        std::mem::swap(&mut rooms, &mut self.rooms);
        match find_key(&rooms, room_id) {
            Some(i) => {
                let mut room = rooms.remove(i);
                proof {
                    assert(room == old_rooms[i as int]);
                    assert(room_ok(room));
                    lemma_keyed_at(old_rooms, i as int);
                    lemma_keyed_remove(old_rooms, i as int);
                }
                let ghost old_parts = room.participants@;
                match find_key(&room.participants, participant_id) {
                    Some(j) => {
                        room.participants.remove(j);
                        proof {
                            lemma_keyed_remove(old_parts, j as int);
                        }
                    },
                    None => {
                        proof {
                            assert(keyed_map(old_parts) =~= keyed_map(old_parts).remove(
                                participant_id@,
                            ));
                        }
                    },
                }
                proof {
                    assert(room_members(room) =~= old_view[room_id@].remove(participant_id@));
                    lemma_members_empty(room);
                }
                if room.participants.len() > 0 {
                    let ghost new_room = room;
                    rooms.insert(i, room);
                    proof {
                        assert(rooms@ =~= old_rooms.update(i as int, new_room));
                        lemma_keyed_update(old_rooms, i as int, new_room);
                    }
                    self.rooms = rooms;
                    proof {
                        assert(self@ =~= after_leave(old_view, room_id@, participant_id@));
                    }
                } else {
                    self.rooms = rooms;
                    proof {
                        assert(self@ =~= after_leave(old_view, room_id@, participant_id@));
                    }
                }
            },
            None => {
                self.rooms = rooms;
                proof {
                    assert(self@ =~= after_leave(old_view, room_id@, participant_id@));
                }
            },
        }
        proof {
            use_type_invariant(&*self);
            self.lemma_no_empty();
        }
    }

    /// Whether the room exists.
    pub fn contains_room(&self, room_id: &str) -> (b: bool)
        ensures
            b == self@.contains_key(room_id@),
    {
        proof {
            use_type_invariant(self);
        }
        match find_key(&self.rooms, room_id) {
            Some(i) => {
                proof {
                    self.lemma_view_at(i as int);
                }
                true
            },
            None => false,
        }
    }

    /// What the server keeps for `participant_id` in `room_id`, if it is there.
    pub fn participant(&self, room_id: &str, participant_id: &str) -> (r: Option<&P>)
        ensures
            match r {
                Some(d) => self@.contains_key(room_id@) && self@[room_id@].contains_key(
                    participant_id@,
                ) && *d == self@[room_id@][participant_id@],
                None => !(self@.contains_key(room_id@) && self@[room_id@].contains_key(
                    participant_id@,
                )),
            },
    {
        proof {
            use_type_invariant(self);
        }
        match find_key(&self.rooms, room_id) {
            Some(i) => {
                proof {
                    self.lemma_view_at(i as int);
                    assert(room_ok(self.rooms@[i as int]));
                }
                let room = &self.rooms[i];
                match find_key(&room.participants, participant_id) {
                    Some(j) => {
                        proof {
                            lemma_keyed_at(room.participants@, j as int);
                        }
                        Some(&room.participants[j].data)
                    },
                    None => None,
                }
            },
            None => None,
        }
    }

    /// The participants of `room_id` other than `exclude` (none when `exclude` is
    /// absent from the filter: pass `None` to get all of them); empty for a room that
    /// does not exist.
    pub fn members_except(&self, room_id: &str, exclude: Option<&str>) -> (r: Vec<
        &ServerParticipant<P>,
    >)
        ensures
            lists_members(
                r@,
                if self@.contains_key(room_id@) {
                    match exclude {
                        Some(x) => self@[room_id@].remove(x@),
                        None => self@[room_id@],
                    }
                } else {
                    Map::empty()
                },
            ),
    {
        proof {
            use_type_invariant(self);
        }
        let mut r: Vec<&ServerParticipant<P>> = Vec::new();
        match find_key(&self.rooms, room_id) {
            Some(i) => {
                proof {
                    self.lemma_view_at(i as int);
                    assert(room_ok(self.rooms@[i as int]));
                }
                let room = &self.rooms[i];
                let ghost parts = room.participants@;
                let ghost members = match exclude {
                    Some(x) => room_members(*room).remove(x@),
                    None => room_members(*room),
                };
                let mut j: usize = 0;
                while j < room.participants.len()
                    invariant
                        parts == room.participants@,
                        keys_distinct(parts),
                        members == match exclude {
                            Some(x) => room_members(*room).remove(x@),
                            None => room_members(*room),
                        },
                        j <= parts.len(),
                        forall|a: int, b: int| 0 <= a < b < r@.len() ==> r@[a].id@ != r@[b].id@,
                        forall|a: int|
                            0 <= a < r@.len() ==> has_key(parts.take(j as int), #[trigger] r@[a].id@),
                        forall|a: int|
                            0 <= a < r@.len() ==> #[trigger] members.contains_key(r@[a].id@)
                                && members[r@[a].id@] == r@[a].data,
                        forall|c: int|
                            0 <= c < j && members.contains_key(#[trigger] parts[c].id@)
                                ==> exists|a: int| 0 <= a < r@.len() && r@[a].id@ == parts[c].id@,
                    decreases parts.len() - j,
                {
                    let p = &room.participants[j];
                    let ghost r_before = r@;
                    let skip = match exclude {
                        Some(x) => str_eq(p.id.as_str(), x),
                        None => false,
                    };
                    proof {
                        lemma_keyed_at(parts, j as int);
                    }
                    if !skip {
                        proof {
                            assert forall|a: int| 0 <= a < r@.len() implies r@[a].id@ != p.id@ by {
                                let t = parts.take(j as int);
                                let c = choose|c: int| 0 <= c < t.len() && #[trigger] t[c].key() == r@[a].id@;
                                assert(parts[c].key() != parts[j as int].key());
                            }
                        }
                        r.push(p);
                    }
                    proof {
                        assert forall|c: int|
                            0 <= c < j + 1 && members.contains_key(#[trigger] parts[c].id@)
                                implies exists|a: int| 0 <= a < r@.len() && r@[a].id@ == parts[c].id@ by {
                            if c < j {
                                let a = choose|a: int| 0 <= a < r_before.len() && r_before[a].id@ == parts[c].id@;
                                assert(r@[a] == r_before[a]);
                            } else {
                                assert(!skip);
                                assert(r@[r@.len() - 1].id@ == parts[c].id@);
                            }
                        }
                        let t2 = parts.take(j + 1);
                        assert forall|a: int| 0 <= a < r@.len() implies has_key(t2, #[trigger] r@[a].id@) by {
                            if a < r@.len() - 1 || skip {
                                let t = parts.take(j as int);
                                let c = choose|c: int| 0 <= c < t.len() && #[trigger] t[c].key() == r@[a].id@;
                                assert(t2[c] == t[c]);
                            } else {
                                assert(t2[j as int].key() == r@[a].id@);
                            }
                        }
                    }
                    j = j + 1;
                }
                proof {
                    assert forall|k: Seq<char>| #[trigger] members.contains_key(k) implies exists|a: int|
                        0 <= a < r@.len() && r@[a].id@ == k by {
                        let c = choose|c: int| 0 <= c < parts.len() && #[trigger] parts[c].key() == k;
                        assert(members.contains_key(parts[c].id@));
                    }
                }
            },
            None => {},
        }
        r
    }

    /// Each room with the number of participants in it.
    pub fn room_summaries(&self) -> (r: Vec<(String, usize)>)
        ensures
            forall|a: int, b: int| 0 <= a < b < r@.len() ==> r@[a].0@ != r@[b].0@,
            forall|a: int|
                0 <= a < r@.len() ==> #[trigger] self@.contains_key(r@[a].0@) && r@[a].1
                    == self@[r@[a].0@].len(),
            forall|k: Seq<char>|
                #[trigger] self@.contains_key(k) ==> exists|a: int| 0 <= a < r@.len() && r@[a].0@ == k,
    {
        proof {
            use_type_invariant(self);
        }
        let mut r: Vec<(String, usize)> = Vec::new();
        let mut i: usize = 0;
        while i < self.rooms.len()
            invariant
                keys_distinct(self.rooms@),
                forall|j: int| 0 <= j < self.rooms@.len() ==> room_ok(#[trigger] self.rooms@[j]),
                i <= self.rooms@.len(),
                r@.len() == i,
                forall|a: int|
                    0 <= a < i ==> #[trigger] r@[a].0@ == self.rooms@[a].id@ && r@[a].1
                        == room_members(self.rooms@[a]).len(),
            decreases self.rooms@.len() - i,
        {
            let room = &self.rooms[i];
            proof {
                assert(room_ok(self.rooms@[i as int]));
                lemma_keyed_len(room.participants@);
                assert(room_members(*room).dom() =~= keyed_map(room.participants@).dom());
            }
            r.push((room.id.clone(), room.participants.len()));
            i = i + 1;
        }
        proof {
            assert forall|a: int, b: int| 0 <= a < b < r@.len() implies r@[a].0@ != r@[b].0@ by {
                assert(self.rooms@[a].key() != self.rooms@[b].key());
            }
            assert forall|a: int| 0 <= a < r@.len() implies #[trigger] self@.contains_key(r@[a].0@)
                && r@[a].1 == self@[r@[a].0@].len() by {
                self.lemma_view_at(a);
            }
            assert forall|k: Seq<char>| #[trigger] self@.contains_key(k) implies exists|a: int|
                0 <= a < r@.len() && r@[a].0@ == k by {
                let j = choose|j: int| 0 <= j < self.rooms@.len() && #[trigger] self.rooms@[j].key() == k;
                assert(r@[j].0@ == k);
            }
        }
        r
    }

    /// The ids of the participants of `room_id` other than `exclude`.
    pub fn get_participants_except(&self, room_id: &str, exclude_participant_id: &str) -> (r: Vec<
        String,
    >)
        ensures
            lists_ids(
                r@,
                if self@.contains_key(room_id@) {
                    self@[room_id@].remove(exclude_participant_id@).dom()
                } else {
                    Set::empty()
                },
            ),
    {
        let members = self.members_except(room_id, Some(exclude_participant_id));
        let ghost m = if self@.contains_key(room_id@) {
            self@[room_id@].remove(exclude_participant_id@)
        } else {
            Map::<Seq<char>, P>::empty()
        };
        let mut r: Vec<String> = Vec::new();
        let mut i: usize = 0;
        while i < members.len()
            invariant
                lists_members(members@, m),
                i <= members@.len(),
                r@.len() == i,
                forall|a: int| 0 <= a < i ==> #[trigger] r@[a]@ == members@[a].id@,
            decreases members@.len() - i,
        {
            r.push(members[i].id.clone());
            i = i + 1;
        }
        proof {
            assert forall|k: Seq<char>| #[trigger] m.dom().contains(k) implies exists|a: int|
                0 <= a < r@.len() && r@[a]@ == k by {
                assert(m.contains_key(k));
                let a = choose|a: int| 0 <= a < members@.len() && members@[a].id@ == k;
                assert(r@[a]@ == k);
            }
            assert forall|a: int| 0 <= a < r@.len() implies m.dom().contains(#[trigger] r@[a]@) by {
                assert(m.contains_key(members@[a].id@));
            }
            assert forall|a: int, b: int| 0 <= a < b < r@.len() implies r@[a]@ != r@[b]@ by {
                assert(r@[a]@ == members@[a].id@);
                assert(r@[b]@ == members@[b].id@);
            }
        }
        r
    }
}

/// Joining and then leaving, for someone who was not in the room, leaves the rooms
/// as they were.
pub proof fn lemma_leave_undoes_join<P>(
    rooms: Map<Seq<char>, Map<Seq<char>, P>>,
    room_id: Seq<char>,
    participant_id: Seq<char>,
    data: P,
)
    requires
        no_empty_rooms(rooms),
        !(rooms.contains_key(room_id) && rooms[room_id].contains_key(participant_id)),
    ensures
        after_leave(after_join(rooms, room_id, participant_id, data), room_id, participant_id)
            == rooms,
{
    let members = if rooms.contains_key(room_id) {
        rooms[room_id]
    } else {
        Map::empty()
    };
    assert(members.insert(participant_id, data).remove(participant_id) =~= members);
    if rooms.contains_key(room_id) {
        assert(rooms.insert(room_id, members) =~= rooms);
    } else {
        assert(rooms.remove(room_id) =~= rooms);
    }
    assert(after_join(rooms, room_id, participant_id, data).insert(room_id, members).remove(
        room_id,
    ) =~= rooms.remove(room_id));
}

} // verus!
