//! Plain-value snapshot of the world as the host saw it this tick.

use vstd::prelude::*;
use crate::room::RoomRectangle;
use crate::util::search::first_index;
use crate::util::search::lemma_first_index_unique;

verus! {

/// A tile of a room.
#[derive(Clone, Copy, Debug, PartialEq, Eq, Structural)]
pub struct Position {
    pub x: u8,
    pub y: u8,
    /// Packed name of the room the tile lies in.
    pub room: u16,
}

/// Distance between two coordinates on one axis.
pub open spec fn axis_gap(a: u8, b: u8) -> int {
    if a >= b {
        a - b
    } else {
        b - a
    }
}

impl Position {
    /// Both positions name the same tile of the same room.
    pub open spec fn spec_is_equal_to(self, other: Position) -> bool {
        self.room == other.room && self.x == other.x && self.y == other.y
    }

    /// Both positions lie in the same room, at most one tile apart on each axis.
    pub open spec fn spec_is_near_to(self, other: Position) -> bool {
        self.room == other.room && axis_gap(self.x, other.x) <= 1 && axis_gap(self.y, other.y) <= 1
    }

    #[verifier::when_used_as_spec(spec_is_equal_to)]
    pub fn is_equal_to(self, other: Position) -> (same: bool)
        ensures
            same == self.spec_is_equal_to(other),
    {
        self.room == other.room && self.x == other.x && self.y == other.y
    }

    #[verifier::when_used_as_spec(spec_is_near_to)]
    pub fn is_near_to(self, other: Position) -> (near: bool)
        ensures
            near == self.spec_is_near_to(other),
    {
        let dx: u8 = if self.x >= other.x { self.x - other.x } else { other.x - self.x };
        let dy: u8 = if self.y >= other.y { self.y - other.y } else { other.y - self.y };
        self.room == other.room && dx <= 1 && dy <= 1
    }
}

/// A creep of the colony as it stands in the world this tick.
#[derive(Clone, Debug, PartialEq, Eq)]
pub struct Creep {
    pub name: String,
    pub pos: Position,
    /// Energy the creep can still take up.
    pub free_capacity: u32,
    /// Energy the creep carries.
    pub used_capacity: u32,
    /// The creep is still being produced and cannot act yet.
    pub spawning: bool,
}

/// An energy source.
#[derive(Clone, Copy, Debug, PartialEq, Eq, Structural)]
pub struct Source {
    pub id: u128,
    pub pos: Position,
}

/// The controller of a room.
#[derive(Clone, Copy, Debug, PartialEq, Eq, Structural)]
pub struct Controller {
    pub id: u128,
    pub pos: Position,
    pub level: u8,
}

/// The spawn of a room.
#[derive(Clone, Copy, Debug, PartialEq, Eq, Structural)]
pub struct Spawn {
    pub id: u128,
    pub pos: Position,
    /// The spawn is producing a creep right now.
    pub busy: bool,
    /// Energy held in reserve.
    pub energy: u32,
}

/// A room of the world as it stands this tick.
#[derive(Clone, Debug, PartialEq, Eq)]
pub struct Room {
    /// Packed name of the room.
    pub name: u16,
    pub terrain: RoomRectangle,
    pub sources: Vec<Source>,
    pub controller: Option<Controller>,
    pub spawn: Option<Spawn>,
    /// Extensions that stand in the room.
    pub extensions: usize,
    /// Extensions that are under construction.
    pub extension_sites: usize,
}

/// The packed names of the rooms, in order.
pub open spec fn room_names(rooms: Seq<Room>) -> Seq<u16> {
    rooms.map_values(|room: Room| room.name)
}

/// Finds the room with this packed name; the number of rooms where there is
/// none.
pub fn find_room(rooms: &Vec<Room>, name: u16) -> (index: usize)
    ensures
        index == first_index(room_names(rooms@), name),
        index <= rooms.len(),
        index < rooms.len() ==> rooms@[index as int].name == name,
{
    let mut i: usize = 0;
    while i < rooms.len()
        invariant
            i <= rooms.len(),
            forall|j: int| 0 <= j < i ==> room_names(rooms@)[j] != name,
        decreases rooms.len() - i,
    {
        if rooms[i].name == name {
            proof {
                assert(room_names(rooms@)[i as int] == name);
                lemma_first_index_unique(room_names(rooms@), name, i as int);
            }
            return i;
        }
        i += 1;
    }
    proof {
        lemma_first_index_unique(room_names(rooms@), name, i as int);
    }
    i
}

/// The names of the creeps, in order.
pub open spec fn creep_names(creeps: Seq<Creep>) -> Seq<Seq<char>> {
    creeps.map_values(|creep: Creep| creep.name@)
}

/// Tells whether a creep of this name is among the creeps.
pub fn is_alive(creeps: &Vec<Creep>, name: &String) -> (alive: bool)
    ensures
        alive == creep_names(creeps@).contains(name@),
{
    let mut i: usize = 0;
    while i < creeps.len()
        invariant
            i <= creeps.len(),
            forall|j: int| 0 <= j < i ==> creep_names(creeps@)[j] != name@,
        decreases creeps.len() - i,
    {
        if creeps[i].name == *name {
            assert(creep_names(creeps@)[i as int] == name@);
            return true;
        }
        i += 1;
    }
    false
}

/// The ids of the sources, in order.
pub open spec fn source_ids(sources: Seq<Source>) -> Seq<u128> {
    sources.map_values(|s: Source| s.id)
}

impl Room {
    /// The first source of the room with this id.
    pub open spec fn spec_source(&self, id: u128) -> Option<Source> {
        let i = first_index(source_ids(self.sources@), id);
        if i < self.sources@.len() {
            Some(self.sources@[i])
        } else {
            None
        }
    }

    /// The source that the room lists last.
    pub open spec fn spec_last_source(&self) -> Option<Source> {
        if self.sources@.len() > 0 {
            Some(self.sources@.last())
        } else {
            None
        }
    }

    /// The room's controller, where it has this id.
    pub open spec fn spec_controller_with(&self, id: u128) -> Option<Controller> {
        match self.controller {
            Some(controller) => if controller.id == id {
                Some(controller)
            } else {
                None
            },
            None => None,
        }
    }

    /// Looks a source up by its id.
    #[verifier::when_used_as_spec(spec_source)]
    pub fn source(&self, id: u128) -> (found: Option<Source>)
        ensures
            found == self.spec_source(id),
    {
        let mut i: usize = 0;
        while i < self.sources.len()
            invariant
                i <= self.sources.len(),
                forall|j: int| 0 <= j < i ==> source_ids(self.sources@)[j] != id,
            decreases self.sources.len() - i,
        {
            if self.sources[i].id == id {
                proof {
                    lemma_first_index_unique(source_ids(self.sources@), id, i as int);
                }
                return Some(self.sources[i]);
            }
            i += 1;
        }
        proof {
            lemma_first_index_unique(source_ids(self.sources@), id, i as int);
        }
        None
    }

    /// The source that the room lists last.
    #[verifier::when_used_as_spec(spec_last_source)]
    pub fn last_source(&self) -> (found: Option<Source>)
        ensures
            found == self.spec_last_source(),
    {
        let n: usize = self.sources.len();
        if n > 0 {
            Some(self.sources[n - 1])
        } else {
            None
        }
    }

    /// The room's controller, where it has this id.
    #[verifier::when_used_as_spec(spec_controller_with)]
    pub fn controller_with(&self, id: u128) -> (found: Option<Controller>)
        ensures
            found == self.spec_controller_with(id),
    {
        match self.controller {
            Some(controller) => if controller.id == id {
                Some(controller)
            } else {
                None
            },
            None => None,
        }
    }
}

} // verus!
