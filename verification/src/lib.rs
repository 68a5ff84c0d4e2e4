//! Decision core of a colony controller for a tick-based world.
//!
//! Every tick the host hands the library a snapshot of the world (rooms,
//! creeps) together with the colony's memory. On a slow cadence the managers
//! refresh the task queues, hand open work to idle creeps and decide what to
//! spawn; on every tick each creep's small state machine decides what it
//! attempts next. The library never touches the world itself: it returns the
//! commands to issue and is told their results.

pub mod action;
pub mod goal;
pub mod manager;
pub mod mem;
pub mod minion;
pub mod role;
pub mod room;
pub mod task;
pub mod util;
pub mod world;

use vstd::prelude::*;
use crate::action::Intent;
use crate::manager::managed;
use crate::manager::managed_orders;
use crate::manager::Managers;
use crate::manager::managers_due;
use crate::manager::scanning::Notice;
use crate::manager::scanning::scan_notices;
use crate::manager::spawn::order_views;
use crate::manager::spawn::SpawnOrder;
use crate::manager::with_room_entries;
use crate::mem::CreepEntry;
use crate::mem::GameMemory;
use crate::mem::queue_views;
use crate::minion::alive_among;
use crate::minion::Minions;
use crate::minion::ran_all;
use crate::world::Creep;
use crate::world::creep_names;
use crate::world::Room;

verus! {

/// The records that are left when the creeps that are gone from the world
/// are forgotten.
pub open spec fn surviving(table: Seq<CreepEntry>, roster: Seq<Creep>) -> Seq<CreepEntry> {
    table.filter(alive_among(creep_names(roster)))
}

/// What a tick of the colony asks of its host.
#[derive(Clone, Debug, PartialEq, Eq)]
pub struct Commands {
    /// What the spawns are to produce.
    pub orders: Vec<SpawnOrder>,
    /// What belongs in the log.
    pub notices: Vec<Notice>,
    /// What each creep of the world attempts, in the order of the world.
    pub intents: Vec<Intent>,
}

/// One tick of the colony.
///
/// The creeps that are gone from the world are forgotten. Then the managers
/// run if they are due: they scan the rooms, hand out tasks and decide what
/// to spawn. Last, every creep of the world decides what it attempts this
/// tick.
pub fn game_loop(memory: &mut GameMemory, rooms: &Vec<Room>, creeps: &Vec<Creep>, tick: u32) -> (commands:
    Commands)
    requires
        old(memory).wf(),
    ensures
        final(memory).wf(),
        commands.intents@.len() == creeps@.len(),
        final(memory).structure_memories == old(memory).structure_memories,
        managers_due(*old(memory), tick) ==> {
            let managed = managed(
                surviving(old(memory).creeps@, creeps@),
                queue_views(old(memory).room_task_queues@),
                rooms@,
                creeps@,
            );
            &&& final(memory).last_managers_tick == tick
            &&& !final(memory).needs_rebuild
            &&& queue_views(final(memory).room_task_queues@) == managed.1
            &&& (final(memory).creeps@, commands.intents@) == ran_all(managed.0, rooms@, creeps@)
            &&& order_views(commands.orders@) == managed_orders(
                surviving(old(memory).creeps@, creeps@),
                queue_views(old(memory).room_task_queues@),
                rooms@,
                creeps@,
                tick,
            )
            &&& commands.notices@ == scan_notices(
                queue_views(old(memory).room_task_queues@),
                rooms@,
            )
            &&& final(memory).rooms@ == with_room_entries(old(memory).rooms@, rooms@)
        },
        !managers_due(*old(memory), tick) ==> {
            &&& final(memory).last_managers_tick == old(memory).last_managers_tick
            &&& final(memory).needs_rebuild == old(memory).needs_rebuild
            &&& final(memory).room_task_queues == old(memory).room_task_queues
            &&& final(memory).rooms == old(memory).rooms
            &&& (final(memory).creeps@, commands.intents@) == ran_all(
                surviving(old(memory).creeps@, creeps@),
                rooms@,
                creeps@,
            )
            &&& commands.orders@.len() == 0
            &&& commands.notices@.len() == 0
        },
{
    Minions::clean_up_dead_creeps(memory, creeps);
    let (orders, notices) = Managers::run(memory, rooms, creeps, tick);
    proof {
        lemma_one_attempt_each(memory.creeps@, rooms@, creeps@);
    }
    let intents = Minions::run(memory, rooms, creeps);
    Commands { orders, notices, intents }
}

/// Every creep of the world gets exactly one attempt.
pub proof fn lemma_one_attempt_each(table: Seq<CreepEntry>, rooms: Seq<Room>, roster: Seq<Creep>)
    ensures
        ran_all(table, rooms, roster).1.len() == roster.len(),
    decreases roster.len(),
{
    if roster.len() > 0 {
        lemma_one_attempt_each(table, rooms, roster.drop_last());
    }
}

/// Takes up the memory that was stored at the end of the last tick.
///
/// A stored memory that is well formed is taken as it is. Where nothing
/// could be read, or what was read is not well formed, the colony starts
/// from nothing: no creep, no task, and the managers due at once.
pub fn retrieve_memory(stored: Option<GameMemory>) -> (memory: GameMemory)
    ensures
        memory.wf(),
        match stored {
            Some(read) => if read.wf() {
                memory == read
            } else {
                is_blank(memory)
            },
            None => is_blank(memory),
        },
{
    match stored {
        Some(read) => {
            if read.is_well_formed() {
                read
            } else {
                GameMemory::default()
            }
        },
        None => GameMemory::default(),
    }
}

/// The memory of a colony that starts from nothing.
pub open spec fn is_blank(memory: GameMemory) -> bool {
    &&& memory.needs_rebuild
    &&& memory.last_managers_tick == 0
    &&& memory.creeps@.len() == 0
    &&& memory.rooms@.len() == 0
    &&& memory.structure_memories@.len() == 0
    &&& memory.room_task_queues@.len() == 0
}

/// The memory of a colony that starts from nothing.
pub fn reset_memory() -> (memory: GameMemory)
    ensures
        memory.wf(),
        is_blank(memory),
{
    GameMemory::default()
}

} // verus!
