use vstd::prelude::*;

verus! {

/// A member of a room.
#[derive(Clone, Debug)]
pub struct Participant {
    pub id: String,
    pub name: String,
    pub is_host: bool,
}

pub struct ParticipantView {
    pub id: Seq<char>,
    pub name: Seq<char>,
    pub is_host: bool,
}

impl View for Participant {
    type V = ParticipantView;

    open spec fn view(&self) -> ParticipantView {
        ParticipantView { id: self.id@, name: self.name@, is_host: self.is_host }
    }
}

impl Participant {
    pub fn new(id: String, name: String, is_host: bool) -> (p: Self)
        ensures
            p.id == id,
            p.name == name,
            p.is_host == is_host,
    {
        Self { id, name, is_host }
    }
}

} // verus!
