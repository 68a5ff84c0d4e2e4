//! The managers: what runs on the slow cadence.

use vstd::prelude::*;
use crate::manager::assignment::assign_cycle;
use crate::manager::assignment::assignments_backed;
use crate::manager::assignment::assignments_hold;
use crate::manager::assignment::harvesters_bounded;
use crate::manager::construction::ConstructionManager;
use crate::manager::scanning::Notice;
use crate::manager::scanning::scan_notices;
use crate::manager::scanning::scanned;
use crate::manager::spawn::order_views;
use crate::manager::spawn::orders_of;
use crate::manager::spawn::SpawnManager;
use crate::manager::spawn::SpawnOrder;
use crate::manager::spawn::SpawnOrderView;
use crate::manager::spawn::spawns_of;
use crate::manager::task::TaskManager;
use crate::mem::CreepEntry;
use crate::mem::GameMemory;
use crate::mem::queue_views;
use crate::mem::queues_sound;
use crate::mem::RoomEntry;
use crate::mem::RoomMemory;
use crate::mem::RoomTasksView;
use crate::util::search::first_index;
use crate::util::search::lemma_first_index_unique;
use crate::world::Creep;
use crate::world::Room;

pub mod assignment;
pub mod construction;
pub mod scanning;
pub mod spawn;
pub mod task;

verus! {

/// Number of ticks from one run of the managers to the next.
pub const MANAGERS_INTERVAL: u32 = 20;

/// The managers run at this tick: the memory asks for it, or the interval
/// has passed since they ran last, or the clock has gone back.
pub open spec fn managers_due(memory: GameMemory, tick: u32) -> bool {
    memory.needs_rebuild || tick < memory.last_managers_tick || tick - memory.last_managers_tick
        >= MANAGERS_INTERVAL
}

/// The packed names under which rooms are remembered, in order.
pub open spec fn entry_rooms(entries: Seq<RoomEntry>) -> Seq<u16> {
    entries.map_values(|entry: RoomEntry| entry.name)
}

/// What is remembered of rooms, with a first entry added for `room` where
/// it has none.
pub open spec fn with_room_entry(entries: Seq<RoomEntry>, room: u16) -> Seq<RoomEntry> {
    if first_index(entry_rooms(entries), room) < entries.len() {
        entries
    } else {
        entries.push(RoomEntry { name: room, memory: RoomMemory { controller_level: 1 } })
    }
}

/// What is remembered of rooms, with a first entry added, in order, for
/// each of `rooms` that has none.
pub open spec fn with_room_entries(entries: Seq<RoomEntry>, rooms: Seq<Room>) -> Seq<RoomEntry>
    decreases rooms.len(),
{
    if rooms.len() == 0 {
        entries
    } else {
        with_room_entry(with_room_entries(entries, rooms.drop_last()), rooms.last().name)
    }
}

/// The records and the queues after the managers ran: the queues are
/// scanned, then tasks are handed out.
pub open spec fn managed(
    creeps: Seq<CreepEntry>,
    queues: Seq<RoomTasksView>,
    rooms: Seq<Room>,
    roster: Seq<Creep>,
) -> (Seq<CreepEntry>, Seq<RoomTasksView>) {
    assign_cycle(creeps, scanned(queues, rooms), roster)
}

/// What the spawns are ordered after the managers ran.
pub open spec fn managed_orders(
    creeps: Seq<CreepEntry>,
    queues: Seq<RoomTasksView>,
    rooms: Seq<Room>,
    roster: Seq<Creep>,
    tick: u32,
) -> Seq<SpawnOrderView> {
    orders_of(spawns_of(rooms), managed(creeps, queues, rooms, roster).1, tick)
}

/// The managers are due at every tick for a memory that asks for them, as
/// the memory of a colony that starts from nothing does.
pub proof fn lemma_rebuild_is_due(memory: GameMemory, tick: u32)
    requires
        memory.needs_rebuild,
    ensures
        managers_due(memory, tick),
{
}

/// Between two runs of the managers lie at least as many ticks as the
/// interval, unless the memory asks for a run or the clock has gone back.
pub proof fn lemma_not_due_within_interval(memory: GameMemory, tick: u32)
    requires
        !memory.needs_rebuild,
        memory.last_managers_tick <= tick < memory.last_managers_tick + MANAGERS_INTERVAL,
    ensures
        !managers_due(memory, tick),
{
}

pub struct Managers;

impl Managers {
    /// Runs the managers if they are due at this tick, and returns what the
    /// spawns are ordered to produce.
    ///
    /// Managers that are not due leave the memory as it is, order nothing
    /// and report nothing. Managers that are due scan the rooms, hand out
    /// tasks and decide what to spawn, in this order; the memory then holds
    /// the tick and no longer asks for a run. After a run no task has more
    /// workers than its capacity, and workers and records agree on who
    /// holds which task. Returned are the orders for the spawns and what
    /// the scan had to report.
    pub fn run(memory: &mut GameMemory, rooms: &Vec<Room>, creeps: &Vec<Creep>, tick: u32) -> (report:
        (Vec<SpawnOrder>, Vec<Notice>))
        requires
            old(memory).wf(),
        ensures
            final(memory).wf(),
            !managers_due(*old(memory), tick) ==> *final(memory) == *old(memory)
                && report.0@.len() == 0 && report.1@.len() == 0,
            managers_due(*old(memory), tick) ==> {
                &&& final(memory).last_managers_tick == tick
                &&& !final(memory).needs_rebuild
                &&& (final(memory).creeps@, queue_views(final(memory).room_task_queues@))
                    == managed(
                    old(memory).creeps@,
                    queue_views(old(memory).room_task_queues@),
                    rooms@,
                    creeps@,
                )
                &&& order_views(report.0@) == managed_orders(
                    old(memory).creeps@,
                    queue_views(old(memory).room_task_queues@),
                    rooms@,
                    creeps@,
                    tick,
                )
                &&& report.1@ == scan_notices(queue_views(old(memory).room_task_queues@), rooms@)
                &&& final(memory).rooms@ == with_room_entries(old(memory).rooms@, rooms@)
                &&& final(memory).structure_memories == old(memory).structure_memories
                &&& queues_sound(queue_views(final(memory).room_task_queues@))
                &&& assignments_hold(
                    final(memory).creeps@,
                    queue_views(final(memory).room_task_queues@),
                )
                &&& assignments_backed(
                    final(memory).creeps@,
                    queue_views(final(memory).room_task_queues@),
                )
                &&& harvesters_bounded(
                    final(memory).creeps@,
                    queue_views(final(memory).room_task_queues@),
                )
            },
    {
        if !memory.needs_rebuild && tick >= memory.last_managers_tick && tick
            - memory.last_managers_tick < MANAGERS_INTERVAL {
            return (Vec::new(), Vec::new());
        }
        let report = Self::handle_managers(memory, rooms, creeps, tick);
        memory.last_managers_tick = tick;
        memory.needs_rebuild = false;
        report
    }

    /// Makes sure that something is remembered of the room, and finds it.
    fn enter_room(entries: &mut Vec<RoomEntry>, room: u16) -> (index: usize)
        ensures
            final(entries)@ == with_room_entry(old(entries)@, room),
            index < final(entries)@.len(),
    {
        let mut i: usize = 0;
        while i < entries.len()
            invariant
                i <= entries.len(),
                forall|j: int| 0 <= j < i ==> entry_rooms(entries@)[j] != room,
            decreases entries.len() - i,
        {
            if entries[i].name == room {
                proof {
                    assert(entry_rooms(entries@)[i as int] == room);
                    lemma_first_index_unique(entry_rooms(entries@), room, i as int);
                }
                return i;
            }
            i += 1;
        }
        proof {
            lemma_first_index_unique(entry_rooms(entries@), room, i as int);
        }
        entries.push(RoomEntry { name: room, memory: RoomMemory::default() });
        i
    }

    /// Runs the managers: construction for each room, the scan of the
    /// rooms, the handing out of tasks, and the decision what to spawn.
    fn handle_managers(
        memory: &mut GameMemory,
        rooms: &Vec<Room>,
        creeps: &Vec<Creep>,
        tick: u32,
    ) -> (report: (Vec<SpawnOrder>, Vec<Notice>))
        requires
            old(memory).wf(),
        ensures
            final(memory).wf(),
            (final(memory).creeps@, queue_views(final(memory).room_task_queues@)) == managed(
                old(memory).creeps@,
                queue_views(old(memory).room_task_queues@),
                rooms@,
                creeps@,
            ),
            report.1@ == scan_notices(queue_views(old(memory).room_task_queues@), rooms@),
            order_views(report.0@) == managed_orders(
                old(memory).creeps@,
                queue_views(old(memory).room_task_queues@),
                rooms@,
                creeps@,
                tick,
            ),
            final(memory).rooms@ == with_room_entries(old(memory).rooms@, rooms@),
            final(memory).structure_memories == old(memory).structure_memories,
            final(memory).last_managers_tick == old(memory).last_managers_tick,
            final(memory).needs_rebuild == old(memory).needs_rebuild,
            queues_sound(queue_views(final(memory).room_task_queues@)),
            assignments_hold(final(memory).creeps@, queue_views(final(memory).room_task_queues@)),
            assignments_backed(
                final(memory).creeps@,
                queue_views(final(memory).room_task_queues@),
            ),
            harvesters_bounded(
                final(memory).creeps@,
                queue_views(final(memory).room_task_queues@),
            ),
    {
        let mut i: usize = 0;
        assert(rooms@.take(0) == Seq::<Room>::empty());
        while i < rooms.len()
            invariant
                i <= rooms.len(),
                memory.rooms@ == with_room_entries(old(memory).rooms@, rooms@.take(i as int)),
                memory.creeps == old(memory).creeps,
                memory.room_task_queues == old(memory).room_task_queues,
                memory.structure_memories == old(memory).structure_memories,
                memory.last_managers_tick == old(memory).last_managers_tick,
                memory.needs_rebuild == old(memory).needs_rebuild,
            decreases rooms.len() - i,
        {
            proof {
                assert(rooms@.take(i as int + 1).drop_last() == rooms@.take(i as int));
            }
            let e = Self::enter_room(&mut memory.rooms, rooms[i].name);
            ConstructionManager::with_room(&rooms[i]).scan(&mut memory.rooms[e].memory);
            i += 1;
        }
        assert(rooms@.take(i as int) == rooms@);
        let notices = TaskManager::with_rooms(rooms).scan(memory);
        TaskManager::assign(memory, creeps);
        let orders = SpawnManager::with_rooms(rooms).spawn(memory, tick);
        (orders, notices)
    }
}

} // verus!
