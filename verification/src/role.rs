//! What a creep does that has no task.

use vstd::prelude::*;
use crate::action::CreepAction as Steps;
use crate::action::memory_toward;
use crate::action::Movement;
use crate::action::movement_toward;
use crate::mem::CreepMemory;
use crate::util::path::MovementDistance;
use crate::world::Creep;
use crate::world::Room;

verus! {

/// The record of an idle creep after its tick: a creep that stands next to
/// the room's controller forgets its path; nothing else changes.
pub open spec fn idle_memory(memory: CreepMemory, creep: Creep, room: Room) -> CreepMemory {
    match room.controller {
        Some(controller) => memory_toward(
            memory,
            creep.pos,
            controller.pos,
            MovementDistance::Near,
        ),
        None => memory,
    }
}

/// The movement of an idle creep: toward the room's controller, where the
/// room has one.
pub open spec fn idle_movement(memory: CreepMemory, creep: Creep, room: Room) -> Option<
    Movement,
> {
    match room.controller {
        Some(controller) => Some(
            movement_toward(memory, creep.pos, controller.pos, MovementDistance::Near),
        ),
        None => None,
    }
}

pub struct CreepAction;

impl CreepAction {
    /// Keeps a creep without task near the room's controller, where it is
    /// at hand. The creep stays without task.
    pub fn idle(creep: &Creep, room: &Room, memory: &mut CreepMemory) -> (movement: Option<
        Movement,
    >)
        ensures
            *final(memory) == idle_memory(*old(memory), *creep, *room),
            movement == idle_movement(*old(memory), *creep, *room),
    {
        match room.controller {
            Some(controller) => Some(Steps::move_near(creep, controller.pos, memory)),
            None => None,
        }
    }
}

} // verus!
