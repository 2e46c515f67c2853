//! Which room is active.
use vstd::prelude::*;

verus! {

/// The identifier of the active room.
#[derive(Debug, PartialEq, Eq)]
pub struct CurrentRoom {
    room_id: String,
}

impl View for CurrentRoom {
    type V = Seq<char>;

    closed spec fn view(&self) -> Seq<char> {
        self.room_id@
    }
}

impl CurrentRoom {
    /// The room that is active where nothing has chosen another.
    pub fn new() -> (r: CurrentRoom)
        ensures
            r@ == "level_0"@,
    {
        CurrentRoom { room_id: "level_0".to_owned() }
    }

    /// The identifier of the active room.
    pub fn get(&self) -> (r: String)
        ensures
            r@ == self@,
    {
        self.room_id.clone()
    }

    /// Makes another room the active one.
    pub fn set(&mut self, room_id: String)
        ensures
            final(self)@ == room_id@,
    {
        self.room_id = room_id;
    }
}

impl Default for CurrentRoom {
    fn default() -> (r: CurrentRoom)
        ensures
            r@ == "level_0"@,
    {
        CurrentRoom::new()
    }
}

} // verus!
