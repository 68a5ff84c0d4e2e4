//! Planning what is built in a room.

use vstd::prelude::*;
use crate::mem::RoomMemory;
use crate::world::Room;

verus! {

/// Number of extensions a room is to have at a controller level; none
/// outside the levels a controller can have.
pub open spec fn desired_extensions(controller_level: int) -> int {
    if controller_level == 2 {
        5
    } else if controller_level == 3 {
        10
    } else if controller_level == 4 {
        20
    } else if controller_level == 5 {
        30
    } else if controller_level == 6 {
        40
    } else if controller_level == 7 {
        50
    } else if controller_level == 8 {
        60
    } else {
        0
    }
}

/// Number of extensions still to be placed in a room at a controller level:
/// those it is to have, less those that stand or are being built.
pub open spec fn missing_extensions(room: Room, controller_level: int) -> int {
    let missing = desired_extensions(controller_level) - room.extensions - room.extension_sites;
    if missing > 0 {
        missing
    } else {
        0
    }
}

/// Number of extensions to be placed in a room this scan: none before the
/// controller has reached its second level, and none without controller.
pub open spec fn planned_extensions(room: Room) -> int {
    match room.controller {
        Some(controller) => if controller.level > 1 {
            missing_extensions(room, controller.level as int)
        } else {
            0
        },
        None => 0,
    }
}

pub struct ConstructionManager<'a> {
    room: &'a Room,
}

impl<'a> ConstructionManager<'a> {
    /// The room the manager plans for.
    pub closed spec fn room(&self) -> Room {
        *self.room
    }

    pub fn with_room(room: &'a Room) -> (manager: ConstructionManager<'a>)
        ensures
            manager.room() == *room,
    {
        ConstructionManager { room }
    }

    /// Tells how many extensions are to be placed in the room. What is
    /// remembered of the room stays as it is.
    pub fn scan(&self, memory: &mut RoomMemory) -> (extensions: usize)
        ensures
            extensions == planned_extensions(self.room()),
            *final(memory) == *old(memory),
    {
        match self.room.controller {
            Some(controller) => {
                if controller.level > 1 {
                    self.choose_extension_locations(controller.level as usize)
                } else {
                    0
                }
            },
            None => 0,
        }
    }

    fn choose_extension_locations(&self, controller_level: usize) -> (extensions: usize)
        ensures
            extensions == missing_extensions(self.room(), controller_level as int),
    {
        let desired: usize = if controller_level == 2 {
            5
        } else if controller_level == 3 {
            10
        } else if controller_level == 4 {
            20
        } else if controller_level == 5 {
            30
        } else if controller_level == 6 {
            40
        } else if controller_level == 7 {
            50
        } else if controller_level == 8 {
            60
        } else {
            0
        };
        if self.room.extensions >= desired {
            return 0;
        }
        let open: usize = desired - self.room.extensions;
        if self.room.extension_sites >= open {
            return 0;
        }
        open - self.room.extension_sites
    }
}

} // verus!
