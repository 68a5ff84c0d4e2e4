//! The kinds of creep, and the per-tick run of all creeps.

use vstd::prelude::*;
use crate::action::ActionStep;
use crate::action::CreepAction;
use crate::action::harvest_outcome;
use crate::action::harvest_plan;
use crate::action::Intent;
use crate::action::memory_after_outcome;
use crate::action::Movement;
use crate::action::movement_after_outcome;
use crate::action::ReturnCode;
use crate::action::upgrade_outcome;
use crate::action::upgrade_plan;
use crate::mem::creep_index;
use crate::mem::CreepEntry;
use crate::mem::CreepMemory;
use crate::mem::enter_creep;
use crate::mem::entry_names;
use crate::mem::GameMemory;
use crate::mem::with_record;
use crate::role::CreepAction as Fallback;
use crate::role::idle_memory;
use crate::role::idle_movement;
use crate::task::Action;
use crate::util::search::first_index;
use crate::util::search::lemma_filter_next;
use crate::world::Creep;
use crate::world::creep_names;
use crate::world::find_room;
use crate::world::is_alive;
use crate::world::Position;
use crate::world::Room;
use crate::world::room_names;

verus! {

/// The kind of work a creep is built for.
#[derive(Clone, Copy, Debug, PartialEq, Eq, Hash, Structural)]
pub enum MinionType {
    SimpleWorker,
    Upgrader,
    Harvester,
}

impl MinionType {
    /// The word that stands for the kind in the names of creeps.
    pub open spec fn spec_label(self) -> Seq<char> {
        match self {
            MinionType::SimpleWorker => "Worker"@,
            MinionType::Upgrader => "Upgrader"@,
            MinionType::Harvester => "Harvester"@,
        }
    }

    /// The word that stands for the kind in the names of creeps.
    pub fn label(&self) -> (word: &'static str)
        ensures
            word@ == self.spec_label(),
    {
        match self {
            MinionType::SimpleWorker => "Worker",
            MinionType::Upgrader => "Upgrader",
            MinionType::Harvester => "Harvester",
        }
    }

    /// The kind in words.
    pub fn to_string(&self) -> (word: String)
        ensures
            word@ == self.spec_label(),
    {
        String::from_str(self.label())
    }
}

/// What a creep attempts this tick, and its record after the decision: a
/// creep without task keeps near the controller, every other creep goes on
/// with its task.
pub open spec fn run_plan(memory: CreepMemory, creep: Creep, room: Room) -> (CreepMemory, Intent) {
    match memory.current_task {
        Action::Idle => (
            idle_memory(memory, creep, room),
            match idle_movement(memory, creep, room) {
                Some(movement) => Intent::Travel(movement),
                None => Intent::Rest,
            },
        ),
        Action::Upgrade(controller_id) => upgrade_plan(memory, creep, room, controller_id),
        Action::Harvest(_) => harvest_plan(memory, creep, room),
        Action::Deposit(_) => harvest_plan(memory, creep, room),
    }
}

/// The step a creep goes to when its attempt came back with `code`, and the
/// place it has to walk up to, if any.
pub open spec fn finish_outcome(memory: CreepMemory, intent: Intent, code: ReturnCode) -> (
    Option<ActionStep>,
    Option<Position>,
) {
    match memory.current_task {
        Action::Idle => (memory.current_task_step, None),
        Action::Upgrade(_) => upgrade_outcome(memory, intent, code),
        Action::Harvest(_) => harvest_outcome(memory, intent, code),
        Action::Deposit(_) => harvest_outcome(memory, intent, code),
    }
}

/// The table of records after one creep of the world had its tick, and what
/// the creep attempts. A creep that is still being produced, or that stands
/// in a room the world does not show, rests, and the table stays as it is.
pub open spec fn ran_one(table: Seq<CreepEntry>, rooms: Seq<Room>, creep: Creep) -> (
    Seq<CreepEntry>,
    Intent,
) {
    let r = first_index(room_names(rooms), creep.pos.room);
    if creep.spawning || r >= rooms.len() {
        (table, Intent::Rest)
    } else {
        let entered = with_record(table, creep.name);
        let c = creep_index(entered, creep.name@);
        let planned = run_plan(entered[c].memory, creep, rooms[r]);
        (entered.update(c, CreepEntry { memory: planned.0, ..entered[c] }), planned.1)
    }
}

/// The table of records after all creeps of the world had their tick, one
/// after the other, and what each of them attempts.
pub open spec fn ran_all(table: Seq<CreepEntry>, rooms: Seq<Room>, roster: Seq<Creep>) -> (
    Seq<CreepEntry>,
    Seq<Intent>,
)
    decreases roster.len(),
{
    if roster.len() == 0 {
        (table, Seq::empty())
    } else {
        let before = ran_all(table, rooms, roster.drop_last());
        let one = ran_one(before.0, rooms, roster.last());
        (one.0, before.1.push(one.1))
    }
}

/// The test that a record belongs to one of the creeps with these names.
pub open spec fn alive_among(names: Seq<Seq<char>>) -> spec_fn(CreepEntry) -> bool {
    |entry: CreepEntry| names.contains(entry.name@)
}

pub struct Minions;

impl Minions {
    /// Decides what a creep attempts this tick.
    pub fn run_creep(creep: &Creep, room: &Room, memory: &mut CreepMemory) -> (intent: Intent)
        ensures
            (*final(memory), intent) == run_plan(*old(memory), *creep, *room),
    {
        match memory.current_task {
            Action::Idle => match Fallback::idle(creep, room, memory) {
                Some(movement) => Intent::Travel(movement),
                None => Intent::Rest,
            },
            Action::Upgrade(controller_id) => CreepAction::upgrade(
                creep,
                room,
                controller_id,
                memory,
            ),
            Action::Harvest(_) => CreepAction::harvest(creep, room, memory),
            Action::Deposit(_) => CreepAction::harvest(creep, room, memory),
        }
    }

    /// Takes in the code of a creep's attempt: sets the creep's next step
    /// and tells whether, and how, it has to walk.
    pub fn finish_creep(
        creep: &Creep,
        intent: Intent,
        code: ReturnCode,
        memory: &mut CreepMemory,
    ) -> (movement: Option<Movement>)
        ensures
            *final(memory) == memory_after_outcome(
                *old(memory),
                *creep,
                finish_outcome(*old(memory), intent, code),
            ),
            movement == movement_after_outcome(
                *old(memory),
                *creep,
                finish_outcome(*old(memory), intent, code),
            ),
    {
        match memory.current_task {
            Action::Idle => None,
            Action::Upgrade(_) => CreepAction::upgrade_result(creep, intent, code, memory),
            Action::Harvest(_) => CreepAction::harvest_result(creep, intent, code, memory),
            Action::Deposit(_) => CreepAction::harvest_result(creep, intent, code, memory),
        }
    }

    /// Lets every creep of the world decide what it attempts this tick, in
    /// the order in which `creeps` lists them, and returns the attempts in
    /// that order. A creep without record gets a blank one. The task queues
    /// are not touched.
    pub fn run(game_memory: &mut GameMemory, rooms: &Vec<Room>, creeps: &Vec<Creep>) -> (intents:
        Vec<Intent>)
        requires
            old(game_memory).wf(),
        ensures
            final(game_memory).wf(),
            (final(game_memory).creeps@, intents@) == ran_all(
                old(game_memory).creeps@,
                rooms@,
                creeps@,
            ),
            final(game_memory).room_task_queues == old(game_memory).room_task_queues,
            final(game_memory).rooms == old(game_memory).rooms,
            final(game_memory).structure_memories == old(game_memory).structure_memories,
            final(game_memory).last_managers_tick == old(game_memory).last_managers_tick,
            final(game_memory).needs_rebuild == old(game_memory).needs_rebuild,
    {
        let mut intents: Vec<Intent> = Vec::new();
        let mut i: usize = 0;
        assert(creeps@.take(0) == Seq::<Creep>::empty());
        while i < creeps.len()
            invariant
                i <= creeps.len(),
                game_memory.wf(),
                (game_memory.creeps@, intents@) == ran_all(
                    old(game_memory).creeps@,
                    rooms@,
                    creeps@.take(i as int),
                ),
                game_memory.room_task_queues == old(game_memory).room_task_queues,
                game_memory.rooms == old(game_memory).rooms,
                game_memory.structure_memories == old(game_memory).structure_memories,
                game_memory.last_managers_tick == old(game_memory).last_managers_tick,
                game_memory.needs_rebuild == old(game_memory).needs_rebuild,
            decreases creeps.len() - i,
        {
            proof {
                assert(creeps@.take(i as int + 1).drop_last() == creeps@.take(i as int));
            }
            let creep = &creeps[i];
            let r = find_room(rooms, creep.pos.room);
            if creep.spawning || r >= rooms.len() {
                intents.push(Intent::Rest);
            } else {
                let c = enter_creep(&mut game_memory.creeps, &creep.name);
                let ghost entered = game_memory.creeps@;
                let intent = Self::run_creep(creep, &rooms[r], &mut game_memory.creeps[c].memory);
                proof {
                    let after = game_memory.creeps@;
                    assert(entry_names(after) == entry_names(entered));
                    assert(after == entered.update(
                        c as int,
                        CreepEntry { memory: after[c as int].memory, ..entered[c as int] },
                    ));
                }
                intents.push(intent);
            }
            i += 1;
        }
        assert(creeps@.take(i as int) == creeps@);
        intents
    }

    /// Forgets the creeps that are no longer in the world: a record stays
    /// exactly if a creep of its name is among `creeps`. The records that
    /// stay keep their order, and the task queues are not touched.
    pub fn clean_up_dead_creeps(game_memory: &mut GameMemory, creeps: &Vec<Creep>)
        requires
            old(game_memory).wf(),
        ensures
            final(game_memory).wf(),
            final(game_memory).creeps@ == old(game_memory).creeps@.filter(
                alive_among(creep_names(creeps@)),
            ),
            final(game_memory).room_task_queues == old(game_memory).room_task_queues,
            final(game_memory).rooms == old(game_memory).rooms,
            final(game_memory).structure_memories == old(game_memory).structure_memories,
            final(game_memory).last_managers_tick == old(game_memory).last_managers_tick,
            final(game_memory).needs_rebuild == old(game_memory).needs_rebuild,
    {
        let ghost before = game_memory.creeps@;
        let ghost kept = alive_among(creep_names(creeps@));
        let mut i: usize = 0;
        let ghost mut k: int = 0;
        assert(before.take(0).filter(kept) == Seq::<CreepEntry>::empty()) by {
            reveal_with_fuel(Seq::filter, 1);
        }
        while i < game_memory.creeps.len()
            invariant
                0 <= i <= game_memory.creeps@.len(),
                0 <= k <= before.len(),
                before.len() - k == game_memory.creeps@.len() - i,
                game_memory.creeps@.skip(i as int) == before.skip(k),
                game_memory.creeps@.take(i as int) == before.take(k).filter(kept),
                entry_names(game_memory.creeps@).no_duplicates(),
                kept == alive_among(creep_names(creeps@)),
                game_memory.room_task_queues == old(game_memory).room_task_queues,
                game_memory.rooms == old(game_memory).rooms,
                game_memory.structure_memories == old(game_memory).structure_memories,
                game_memory.last_managers_tick == old(game_memory).last_managers_tick,
                game_memory.needs_rebuild == old(game_memory).needs_rebuild,
            decreases game_memory.creeps@.len() - i,
        {
            let ghost current = game_memory.creeps@;
            proof {
                assert(current[i as int] == current.skip(i as int)[0]);
                assert(before[k] == before.skip(k)[0]);
                lemma_filter_next(before, kept, k);
            }
            if is_alive(creeps, &game_memory.creeps[i].name) {
                proof {
                    assert(current.take(i as int + 1) == current.take(i as int).push(
                        current[i as int],
                    ));
                    assert(current.skip(i as int + 1) == current.skip(i as int).skip(1));
                    assert(before.skip(k + 1) == before.skip(k).skip(1));
                    k = k + 1;
                }
                i += 1;
            } else {
                game_memory.creeps.remove(i);
                proof {
                    let after = game_memory.creeps@;
                    assert(after.take(i as int) == current.take(i as int));
                    assert(after.skip(i as int) == current.skip(i as int).skip(1));
                    assert(before.skip(k + 1) == before.skip(k).skip(1));
                    assert forall|a: int, b: int|
                        0 <= a < after.len() && 0 <= b < after.len() && a != b implies entry_names(
                        after,
                    )[a] != entry_names(after)[b] by {
                        let a0 = if a < i { a } else { a + 1 };
                        let b0 = if b < i { b } else { b + 1 };
                        assert(entry_names(after)[a] == entry_names(current)[a0]);
                        assert(entry_names(after)[b] == entry_names(current)[b0]);
                    }
                    k = k + 1;
                }
            }
        }
        proof {
            assert(game_memory.creeps@.take(i as int) == game_memory.creeps@);
            assert(before.take(k) == before);
        }
    }
}

} // verus!
