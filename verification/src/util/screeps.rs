//! Picking creeps by what their records say.

use vstd::prelude::*;
use crate::mem::creep_index;
use crate::mem::CreepEntry;
use crate::mem::find_creep;
use crate::mem::GameMemory;
use crate::task::Action;
use crate::util::search::indices_where;
use crate::world::Creep;

verus! {

/// The creep has no record in the table, or a record that holds no task.
pub open spec fn is_idle(table: Seq<CreepEntry>, creep: Creep) -> bool {
    let c = creep_index(table, creep.name@);
    c >= table.len() || table[c].memory.current_task == Action::Idle
}

/// The test that a creep is idle.
pub open spec fn idle_in(table: Seq<CreepEntry>) -> spec_fn(Creep) -> bool {
    |creep: Creep| is_idle(table, creep)
}

/// The test that a record is assigned to `task`.
pub open spec fn doing(task: Action) -> spec_fn(CreepEntry) -> bool {
    |entry: CreepEntry| entry.memory.current_task == task
}

pub struct Screeps {}

impl Screeps {
    /// Lists the creeps of the world that are idle, by their places in
    /// `creeps`, in rising order.
    pub fn get_idle_screeps(game_memory: &GameMemory, creeps: &Vec<Creep>) -> (idle: Vec<usize>)
        ensures
            idle@ == indices_where(creeps@, idle_in(game_memory.creeps@)),
    {
        let mut idle: Vec<usize> = Vec::new();
        let mut i: usize = 0;
        assert(creeps@.take(0) == Seq::<Creep>::empty());
        while i < creeps.len()
            invariant
                i <= creeps.len(),
                idle@ == indices_where(creeps@.take(i as int), idle_in(game_memory.creeps@)),
            decreases creeps.len() - i,
        {
            proof {
                assert(creeps@.take(i as int + 1).drop_last() == creeps@.take(i as int));
            }
            let c = find_creep(&game_memory.creeps, &creeps[i].name);
            let free: bool = if c < game_memory.creeps.len() {
                match game_memory.creeps[c].memory.current_task {
                    Action::Idle => true,
                    _ => false,
                }
            } else {
                true
            };
            if free {
                idle.push(i);
            }
            i += 1;
        }
        assert(creeps@.take(i as int) == creeps@);
        idle
    }

    /// Lists the records that are assigned to `task`, by their places in the
    /// table of records, in rising order.
    pub fn get_screeps_doing(task: Action, game_memory: &GameMemory) -> (busy: Vec<usize>)
        ensures
            busy@ == indices_where(game_memory.creeps@, doing(task)),
    {
        let mut busy: Vec<usize> = Vec::new();
        let mut i: usize = 0;
        assert(game_memory.creeps@.take(0) == Seq::<CreepEntry>::empty());
        while i < game_memory.creeps.len()
            invariant
                i <= game_memory.creeps.len(),
                busy@ == indices_where(game_memory.creeps@.take(i as int), doing(task)),
            decreases game_memory.creeps.len() - i,
        {
            proof {
                assert(game_memory.creeps@.take(i as int + 1).drop_last()
                    == game_memory.creeps@.take(i as int));
            }
            if game_memory.creeps[i].memory.current_task == task {
                busy.push(i);
            }
            i += 1;
        }
        assert(game_memory.creeps@.take(i as int) == game_memory.creeps@);
        busy
    }
}

} // verus!
