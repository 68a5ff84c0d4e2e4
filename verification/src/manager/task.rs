//! Keeping the task queues in step with the world, and handing open tasks
//! to idle creeps.

use vstd::prelude::*;
use crate::manager::assignment::assign_cycle;
use crate::manager::assignment::assigned_all;
use crate::manager::assignment::assigned_memory;
use crate::manager::assignment::assigned_queue;
use crate::manager::assignment::assigned_queues;
use crate::manager::assignment::assignments_backed;
use crate::manager::assignment::assignments_hold;
use crate::manager::assignment::harvesters_bounded;
use crate::manager::assignment::joined;
use crate::manager::assignment::lemma_assign_backed;
use crate::manager::assignment::lemma_assign_bounds_harvesters;
use crate::manager::assignment::lemma_assign_consistent;
use crate::manager::assignment::lemma_assign_within_capacity;
use crate::manager::assignment::lemma_assigned_apart;
use crate::manager::assignment::lemma_released_apart;
use crate::manager::assignment::listed;
use crate::manager::assignment::lists;
use crate::manager::assignment::open_to;
use crate::manager::assignment::queue_lists;
use crate::manager::assignment::recalled;
use crate::manager::assignment::released;
use crate::manager::assignment::released_queue;
use crate::manager::assignment::released_task;
use crate::manager::scanning::fresh_task;
use crate::manager::scanning::harvest_notices;
use crate::manager::scanning::harvest_queue_consistent;
use crate::manager::scanning::harvest_scanned;
use crate::manager::scanning::lemma_queue_push;
use crate::manager::scanning::lemma_total_capacity_bounds;
use crate::manager::scanning::lemma_total_capacity_grows;
use crate::manager::scanning::Notice;
use crate::manager::scanning::room_notices;
use crate::manager::scanning::scan_notices;
use crate::manager::scanning::scanned;
use crate::manager::scanning::scanned_harvest_queue;
use crate::manager::scanning::scanned_room;
use crate::manager::scanning::scanned_upgrade_queue;
use crate::manager::scanning::total_capacity;
use crate::manager::scanning::upgrade_notices;
use crate::manager::scanning::upgrade_queue_consistent;
use crate::manager::scanning::upgrade_scanned;
use crate::manager::scanning::with_harvest_tasks;
use crate::manager::scanning::with_room_tasks;
use crate::mem::actions;
use crate::mem::CreepEntry;
use crate::mem::CreepMemory;
use crate::mem::enter_creep;
use crate::mem::entry_names;
use crate::mem::find_room_tasks;
use crate::mem::GameMemory;
use crate::mem::holds;
use crate::mem::is_queued_outside;
use crate::mem::lemma_changed_room_apart;
use crate::mem::lemma_empty_room_apart;
use crate::mem::lemma_wf_kinds_fit;
use crate::mem::lemma_wf_queues_sound;
use crate::mem::queue_rooms;
use crate::mem::queue_views;
use crate::mem::queue_wf;
use crate::mem::queued_outside;
use crate::mem::queues_sound;
use crate::mem::queues_wf;
use crate::mem::room_has;
use crate::mem::RoomTasks;
use crate::mem::RoomTasksView;
use crate::mem::targets_apart;
use crate::mem::task_views;
use crate::minion::MinionType;
use crate::task::Action;
use crate::task::harvest::Harvest;
use crate::task::Task;
use crate::task::task_view;
use crate::task::task_wf;
use crate::task::TaskView;
use crate::task::upgrade::Upgrade;
use crate::util::position::PositionCalculator;
use crate::util::search::first_index;
use crate::util::search::first_where;
use crate::util::search::lemma_first_index;
use crate::util::search::lemma_first_index_unique;
use crate::util::search::lemma_first_where;
use crate::util::search::lemma_first_where_unique;
use crate::world::Creep;
use crate::world::Room;
use crate::world::Source;

verus! {

pub struct TaskManager<'a> {
    rooms: &'a Vec<Room>,
}

impl<'a> TaskManager<'a> {
    /// The rooms the manager scans.
    pub closed spec fn rooms(&self) -> Seq<Room> {
        self.rooms@
    }

    pub fn with_rooms(rooms: &'a Vec<Room>) -> (manager: TaskManager<'a>)
        ensures
            manager.rooms() == rooms@,
    {
        TaskManager { rooms }
    }

    /// Finds the first task of the queue that has room for the creep of
    /// this name; the length of the queue where none has.
    fn first_open<T: Task>(queue: &Vec<T>, name: &String) -> (t: usize)
        ensures
            t == first_where(task_views(queue@), open_to(name@)),
            t <= queue.len(),
            t < queue.len() ==> open_to(name@)(task_view(queue@[t as int])),
    {
        let mut i: usize = 0;
        while i < queue.len()
            invariant
                i <= queue.len(),
                forall|j: int| 0 <= j < i ==> !open_to(name@)(task_views(queue@)[j]),
            decreases queue.len() - i,
        {
            if queue[i].needs_creeps() && !queue[i].get_props().includes(name) {
                proof {
                    assert(task_views(queue@)[i as int] == task_view(queue@[i as int]));
                    lemma_first_where_unique(task_views(queue@), open_to(name@), i as int);
                }
                return i;
            }
            assert(task_views(queue@)[i as int] == task_view(queue@[i as int]));
            i += 1;
        }
        proof {
            lemma_first_where_unique(task_views(queue@), open_to(name@), i as int);
        }
        i
    }

    /// Gives the creep the first task of the queue that has room for it,
    /// and finds that task; the length of the queue where none has.
    fn join_queue<T: Task>(queue: &mut Vec<T>, creep: &Creep) -> (t: usize)
        requires
            queue_wf(old(queue)@),
        ensures
            queue_wf(final(queue)@),
            t == first_where(task_views(old(queue)@), open_to(creep.name@)),
            t <= old(queue)@.len(),
            task_views(final(queue)@) == assigned_queue(task_views(old(queue)@), creep.name@),
    {
        let t = Self::first_open(queue, &creep.name);
        if t < queue.len() {
            let ghost before = queue@;
            assert(task_wf(before[t as int]));
            queue[t].assign_creep(creep);
            proof {
                let after = queue@;
                assert(task_views(after) == task_views(before).update(
                    t as int,
                    joined(task_views(before)[t as int], creep.name@),
                ));
                assert(actions(task_views(after)) == actions(task_views(before)));
                assert forall|i: int| 0 <= i < after.len() implies task_wf(
                    #[trigger] after[i],
                ) by {
                    if i != t {
                        assert(after[i] == before[i]);
                        assert(task_wf(before[i]));
                    }
                }
            }
        }
        t
    }

    /// Gives an idle creep the first task that has room for it, among the
    /// tasks that the room it stands in holds for creeps of its kind, in the
    /// order of the queue. A creep that has a task keeps it, and a creep for
    /// which no task has room stays idle.
    fn assign_creep(
        creep: &Creep,
        memory: &mut CreepMemory,
        room_task_queues: &mut Vec<RoomTasks>,
    )
        requires
            queues_wf(old(room_task_queues)@),
        ensures
            queues_wf(final(room_task_queues)@),
            *final(memory) == assigned_memory(
                *old(memory),
                queue_views(old(room_task_queues)@),
                *creep,
            ),
            queue_views(final(room_task_queues)@) == assigned_queues(
                *old(memory),
                queue_views(old(room_task_queues)@),
                *creep,
            ),
    {
        match memory.current_task {
            Action::Idle => {},
            _ => {
                return;
            },
        }
        let r = find_room_tasks(room_task_queues, creep.pos.room);
        if r >= room_task_queues.len() {
            return;
        }
        let ghost before = room_task_queues@;
        assert(before[r as int].wf());
        match memory.worker_type {
            MinionType::Harvester => {
                let t = Self::join_queue(&mut room_task_queues[r].harvester, creep);
                if t < room_task_queues[r].harvester.len() {
                    memory.current_task = Action::Harvest(room_task_queues[r].harvester[t].source_id);
                }
                proof {
                    let was = before[r as int].harvester@;
                    let now = room_task_queues@[r as int].harvester@;
                    lemma_first_where(task_views(was), open_to(creep.name@));
                    if t < was.len() {
                        assert(task_views(now)[t as int] == task_view(now[t as int]));
                        assert(task_views(was)[t as int] == task_view(was[t as int]));
                    }
                }
            },
            MinionType::Upgrader => {
                let t = Self::join_queue(&mut room_task_queues[r].upgrader, creep);
                if t < room_task_queues[r].upgrader.len() {
                    match room_task_queues[r].upgrader[t].props.target {
                        Some(id) => {
                            memory.current_task = Action::Upgrade(id);
                        },
                        None => {},
                    }
                }
                proof {
                    let was = before[r as int].upgrader@;
                    let now = room_task_queues@[r as int].upgrader@;
                    lemma_first_where(task_views(was), open_to(creep.name@));
                    if t < was.len() {
                        assert(task_views(now)[t as int] == task_view(now[t as int]));
                        assert(task_views(was)[t as int] == task_view(was[t as int]));
                        assert(task_wf(now[t as int]));
                    }
                }
            },
            MinionType::SimpleWorker => {
                assert(first_where(Seq::<TaskView>::empty(), open_to(creep.name@)) == 0);
            },
        }
        proof {
            let after = room_task_queues@;
            assert(queue_views(after) == queue_views(before).update(r as int, after[r as int]@));
            assert(queue_rooms(queue_views(after)) == queue_rooms(queue_views(before)));
            assert forall|q: int| 0 <= q < after.len() implies (#[trigger] after[q]).wf() by {
                if q != r {
                    assert(after[q] == before[q]);
                }
            }
        }
    }

    /// Releases, in every task of the queue, the workers that have no
    /// record or whose record is assigned to something else.
    fn release_queue<T: Task>(queue: &mut Vec<T>, creeps: &Vec<CreepEntry>)
        requires
            queue_wf(old(queue)@),
        ensures
            queue_wf(final(queue)@),
            task_views(final(queue)@) == released_queue(creeps@, task_views(old(queue)@)),
    {
        let mut i: usize = 0;
        while i < queue.len()
            invariant
                i <= queue.len(),
                queue@.len() == old(queue)@.len(),
                queue_wf(queue@),
                forall|j: int|
                    0 <= j < i ==> task_view(#[trigger] queue@[j]) == released_task(
                        creeps@,
                        task_view(old(queue)@[j]),
                    ),
                forall|j: int| i <= j < queue@.len() ==> queue@[j] == old(queue)@[j],
            decreases queue.len() - i,
        {
            let ghost before = queue@;
            assert(task_wf(before[i as int]));
            queue[i].release_workers(creeps);
            proof {
                let after = queue@;
                assert(actions(task_views(after)) == actions(task_views(before)));
                assert forall|j: int| 0 <= j < after.len() implies task_wf(
                    #[trigger] after[j],
                ) by {
                    if j != i {
                        assert(after[j] == before[j]);
                        assert(task_wf(before[j]));
                    }
                }
            }
            i += 1;
        }
        assert(task_views(queue@) == released_queue(creeps@, task_views(old(queue)@)));
    }

    /// Releases, in every task of every room, the workers that have no
    /// record or whose record is assigned to something else.
    fn release(room_task_queues: &mut Vec<RoomTasks>, creeps: &Vec<CreepEntry>)
        requires
            queues_wf(old(room_task_queues)@),
        ensures
            queues_wf(final(room_task_queues)@),
            queue_views(final(room_task_queues)@) == released(
                creeps@,
                queue_views(old(room_task_queues)@),
            ),
    {
        let mut r: usize = 0;
        while r < room_task_queues.len()
            invariant
                r <= room_task_queues.len(),
                room_task_queues@.len() == old(room_task_queues)@.len(),
                queues_wf(room_task_queues@),
                forall|q: int|
                    0 <= q < r ==> (#[trigger] room_task_queues@[q])@ == released(
                        creeps@,
                        queue_views(old(room_task_queues)@),
                    )[q],
                forall|q: int|
                    r <= q < room_task_queues@.len() ==> room_task_queues@[q] == old(room_task_queues)@[q],
            decreases room_task_queues.len() - r,
        {
            let ghost before = room_task_queues@;
            assert(before[r as int].wf());
            Self::release_queue(&mut room_task_queues[r].upgrader, creeps);
            Self::release_queue(&mut room_task_queues[r].harvester, creeps);
            proof {
                let after = room_task_queues@;
                assert(queue_rooms(queue_views(after)) == queue_rooms(queue_views(before)));
                assert forall|q: int| 0 <= q < after.len() implies (#[trigger] after[q]).wf() by {
                    if q != r {
                        assert(after[q] == before[q]);
                        assert(before[q].wf());
                    }
                }
            }
            r += 1;
        }
        assert(queue_views(room_task_queues@) == released(
            creeps@,
            queue_views(old(room_task_queues)@),
        ));
    }

    /// Tells whether a task of the queue is for `action` and lists the
    /// creep of this name.
    fn queue_lists<T: Task>(queue: &Vec<T>, name: &String, action: Action) -> (found: bool)
        ensures
            found == queue_lists(task_views(queue@), name@, action),
    {
        let mut t: usize = 0;
        while t < queue.len()
            invariant
                t <= queue.len(),
                forall|j: int| 0 <= j < t ==> !lists(task_views(queue@)[j], name@, action),
            decreases queue.len() - t,
        {
            assert(task_views(queue@)[t as int] == task_view(queue@[t as int]));
            if queue[t].get_action() == action && queue[t].get_props().includes(name) {
                return true;
            }
            t += 1;
        }
        false
    }

    /// Tells whether a task of a room is for `action` and lists the creep
    /// of this name.
    fn is_listed(room_task_queues: &Vec<RoomTasks>, name: &String, action: Action) -> (found: bool)
        ensures
            found == listed(queue_views(room_task_queues@), name@, action),
    {
        let mut r: usize = 0;
        while r < room_task_queues.len()
            invariant
                r <= room_task_queues.len(),
                forall|q: int|
                    0 <= q < r ==> !queue_lists(
                        (#[trigger] queue_views(room_task_queues@)[q]).upgrader,
                        name@,
                        action,
                    ) && !queue_lists(queue_views(room_task_queues@)[q].harvester, name@, action),
            decreases room_task_queues.len() - r,
        {
            assert(queue_views(room_task_queues@)[r as int] == room_task_queues@[r as int]@);
            if Self::queue_lists(&room_task_queues[r].upgrader, name, action) || Self::queue_lists(
                &room_task_queues[r].harvester,
                name,
                action,
            ) {
                return true;
            }
            r += 1;
        }
        false
    }

    /// Calls in the tasks that no queue backs: a record whose task no
    /// queued task lists it for loses the task.
    fn recall(creeps: &mut Vec<CreepEntry>, room_task_queues: &Vec<RoomTasks>)
        ensures
            final(creeps)@ == recalled(old(creeps)@, queue_views(room_task_queues@)),
            entry_names(final(creeps)@) == entry_names(old(creeps)@),
    {
        let mut i: usize = 0;
        while i < creeps.len()
            invariant
                i <= creeps.len(),
                creeps@.len() == old(creeps)@.len(),
                forall|j: int|
                    0 <= j < i ==> creeps@[j] == recalled(
                        old(creeps)@,
                        queue_views(room_task_queues@),
                    )[j],
                forall|j: int| i <= j < creeps@.len() ==> creeps@[j] == old(creeps)@[j],
            decreases creeps.len() - i,
        {
            let backed: bool = match creeps[i].memory.current_task {
                Action::Idle => true,
                action => Self::is_listed(room_task_queues, &creeps[i].name, action),
            };
            if !backed {
                creeps[i].memory.current_task = Action::Idle;
            }
            i += 1;
        }
        assert(creeps@ == recalled(old(creeps)@, queue_views(room_task_queues@)));
        assert(entry_names(creeps@) == entry_names(old(creeps)@));
    }

    /// Hands the open tasks to the idle creeps.
    ///
    /// First every task lets go of the workers that have no record any more
    /// or whose record is assigned to something else, and every record loses
    /// a task that no queued task lists it for. Then the creeps of the
    /// world have their turn, in the order in which `creeps` lists them. A
    /// creep that is still being produced is passed over. Any other creep
    /// gets a blank record if it has none; if its record holds no task, it
    /// is given the first task that has room for it, among the tasks that
    /// the room it stands in holds for creeps of its kind.
    ///
    /// Afterwards no task has more workers than its capacity, every worker
    /// that a task lists has a record that holds the task, every task
    /// that a record holds lists the record's creep, and no more records
    /// are assigned to a source than can stand around it.
    pub fn assign(game_memory: &mut GameMemory, creeps: &Vec<Creep>)
        requires
            old(game_memory).wf(),
        ensures
            final(game_memory).wf(),
            (final(game_memory).creeps@, queue_views(final(game_memory).room_task_queues@))
                == assign_cycle(
                old(game_memory).creeps@,
                queue_views(old(game_memory).room_task_queues@),
                creeps@,
            ),
            queues_sound(queue_views(final(game_memory).room_task_queues@)),
            assignments_hold(
                final(game_memory).creeps@,
                queue_views(final(game_memory).room_task_queues@),
            ),
            assignments_backed(
                final(game_memory).creeps@,
                queue_views(final(game_memory).room_task_queues@),
            ),
            harvesters_bounded(
                final(game_memory).creeps@,
                queue_views(final(game_memory).room_task_queues@),
            ),
            final(game_memory).rooms == old(game_memory).rooms,
            final(game_memory).structure_memories == old(game_memory).structure_memories,
            final(game_memory).last_managers_tick == old(game_memory).last_managers_tick,
            final(game_memory).needs_rebuild == old(game_memory).needs_rebuild,
    {
        proof {
            let queues = queue_views(game_memory.room_task_queues@);
            lemma_wf_queues_sound(*game_memory);
            lemma_assign_within_capacity(game_memory.creeps@, queues, creeps@);
            lemma_assign_consistent(game_memory.creeps@, queues, creeps@);
            lemma_assign_backed(game_memory.creeps@, queues, creeps@);
            lemma_assign_bounds_harvesters(game_memory.creeps@, queues, creeps@);
        }
        proof {
            lemma_released_apart(game_memory.creeps@, queue_views(game_memory.room_task_queues@));
        }
        Self::release(&mut game_memory.room_task_queues, &game_memory.creeps);
        Self::recall(&mut game_memory.creeps, &game_memory.room_task_queues);
        let ghost start = (game_memory.creeps@, queue_views(game_memory.room_task_queues@));
        let mut i: usize = 0;
        assert(creeps@.take(0) == Seq::<Creep>::empty());
        while i < creeps.len()
            invariant
                i <= creeps.len(),
                game_memory.wf(),
                (game_memory.creeps@, queue_views(game_memory.room_task_queues@)) == assigned_all(
                    start,
                    creeps@.take(i as int),
                ),
                game_memory.rooms == old(game_memory).rooms,
                game_memory.structure_memories == old(game_memory).structure_memories,
                game_memory.last_managers_tick == old(game_memory).last_managers_tick,
                game_memory.needs_rebuild == old(game_memory).needs_rebuild,
            decreases creeps.len() - i,
        {
            proof {
                assert(creeps@.take(i as int + 1).drop_last() == creeps@.take(i as int));
            }
            let creep = &creeps[i];
            if !creep.spawning {
                let c = enter_creep(&mut game_memory.creeps, &creep.name);
                let ghost entered = game_memory.creeps@;
                proof {
                    lemma_assigned_apart(
                        entered[c as int].memory,
                        queue_views(game_memory.room_task_queues@),
                        *creep,
                    );
                }
                Self::assign_creep(
                    creep,
                    &mut game_memory.creeps[c].memory,
                    &mut game_memory.room_task_queues,
                );
                proof {
                    let after = game_memory.creeps@;
                    assert(entry_names(after) == entry_names(entered));
                    assert(after == entered.update(
                        c as int,
                        CreepEntry { memory: after[c as int].memory, ..entered[c as int] },
                    ));
                }
            }
            i += 1;
        }
        assert(creeps@.take(i as int) == creeps@);
    }

    /// Tells whether the queue holds a task for the source.
    fn harvest_queued(queue: &Vec<Harvest>, source_id: u128) -> (queued: bool)
        ensures
            queued == actions(task_views(queue@)).contains(Action::Harvest(source_id)),
    {
        let mut i: usize = 0;
        while i < queue.len()
            invariant
                i <= queue.len(),
                forall|j: int|
                    0 <= j < i ==> actions(task_views(queue@))[j] != Action::Harvest(source_id),
            decreases queue.len() - i,
        {
            if queue[i].source_id == source_id {
                assert(actions(task_views(queue@))[i as int] == Action::Harvest(source_id));
                return true;
            }
            i += 1;
        }
        false
    }

    /// Tells whether the queue holds a task for the controller.
    fn upgrade_queued(queue: &Vec<Upgrade>, controller_id: u128) -> (queued: bool)
        ensures
            queued == actions(task_views(queue@)).contains(Action::Upgrade(controller_id)),
    {
        let mut i: usize = 0;
        while i < queue.len()
            invariant
                i <= queue.len(),
                forall|j: int|
                    0 <= j < i ==> actions(task_views(queue@))[j] != Action::Upgrade(
                        controller_id,
                    ),
            decreases queue.len() - i,
        {
            let found: bool = match queue[i].props.target {
                Some(id) => id == controller_id,
                None => false,
            };
            if found {
                assert(actions(task_views(queue@))[i as int] == Action::Upgrade(controller_id));
                return true;
            }
            i += 1;
        }
        false
    }

    /// Tells whether at least `length` creeps can stand around the sources
    /// of the room.
    fn capacity_covers(room: &Room, length: usize) -> (covered: bool)
        ensures
            covered == (length <= total_capacity(room.terrain, room.sources@)),
    {
        let mut total: usize = 0;
        let mut i: usize = 0;
        proof {
            assert(room.sources@.take(0) == Seq::<Source>::empty());
            lemma_total_capacity_bounds(room.terrain, room.sources@);
        }
        while i < room.sources.len() && total < length
            invariant
                i <= room.sources.len(),
                total <= length,
                total < length ==> total == total_capacity(
                    room.terrain,
                    room.sources@.take(i as int),
                ),
                total == length ==> length <= total_capacity(room.terrain, room.sources@),
            decreases room.sources.len() - i,
        {
            let spaces = PositionCalculator::spaces_around(room, room.sources[i].pos);
            proof {
                assert(room.sources@.take(i as int + 1).drop_last() == room.sources@.take(
                    i as int,
                ));
                lemma_total_capacity_grows(room.terrain, room.sources@, i as int + 1);
            }
            if spaces >= length - total {
                total = length;
            } else {
                total = total + spaces;
            }
            i += 1;
        }
        proof {
            if total < length {
                assert(room.sources@.take(i as int) == room.sources@);
            }
        }
        total >= length
    }

    /// Brings a queue of harvest tasks in step with the room.
    ///
    /// `taken` tells of each source of the room whether a room other than
    /// the room at `r` of `queues` holds a task for it.
    fn scan_harvest_queue(
        queue: &mut Vec<Harvest>,
        room: &Room,
        taken: &Vec<bool>,
        Ghost(queues): Ghost<Seq<RoomTasksView>>,
        Ghost(r): Ghost<int>,
    ) -> (rebuilt: Option<usize>)
        requires
            queue_wf(old(queue)@),
            taken@.len() == room.sources@.len(),
            forall|i: int|
                0 <= i < taken@.len() ==> #[trigger] taken@[i] == queued_outside(
                    queues,
                    r,
                    Action::Harvest(room.sources@[i].id),
                ),
        ensures
            queue_wf(final(queue)@),
            task_views(final(queue)@) == scanned_harvest_queue(
                task_views(old(queue)@),
                queues,
                r,
                *room,
            ),
            forall|t: int|
                0 <= t < final(queue)@.len() ==> actions(task_views(old(queue)@)).contains(
                    #[trigger] actions(task_views(final(queue)@))[t],
                ) || !queued_outside(queues, r, actions(task_views(final(queue)@))[t]),
            rebuilt == if harvest_queue_consistent(old(queue)@.len(), *room) {
                None
            } else {
                Some(old(queue)@.len() as usize)
            },
    {
        let length: usize = queue.len();
        let mut rebuilt: Option<usize> = None;
        if !(length <= room.sources.len() && Self::capacity_covers(room, length)) {
            queue.clear();
            rebuilt = Some(length);
            assert(task_views(queue@) == Seq::<TaskView>::empty());
        }
        let ghost base = task_views(queue@);
        let mut i: usize = 0;
        assert(room.sources@.take(0) == Seq::<Source>::empty());
        assert forall|t: int| 0 <= t < queue@.len() implies actions(
            task_views(old(queue)@),
        ).contains(#[trigger] actions(task_views(queue@))[t]) by {
            assert(actions(task_views(old(queue)@))[t] == actions(task_views(queue@))[t]);
        }
        while i < room.sources.len()
            invariant
                i <= room.sources.len(),
                queue_wf(queue@),
                taken@.len() == room.sources@.len(),
                forall|k: int|
                    0 <= k < taken@.len() ==> #[trigger] taken@[k] == queued_outside(
                        queues,
                        r,
                        Action::Harvest(room.sources@[k].id),
                    ),
                task_views(queue@) == with_harvest_tasks(
                    base,
                    queues,
                    r,
                    room.terrain,
                    room.sources@.take(i as int),
                ),
                forall|t: int|
                    0 <= t < queue@.len() ==> actions(task_views(old(queue)@)).contains(
                        #[trigger] actions(task_views(queue@))[t],
                    ) || !queued_outside(queues, r, actions(task_views(queue@))[t]),
            decreases room.sources.len() - i,
        {
            let source = room.sources[i];
            let spaces = PositionCalculator::spaces_around(room, source.pos);
            proof {
                assert(room.sources@.take(i as int + 1).drop_last() == room.sources@.take(
                    i as int,
                ));
            }
            if spaces >= 1 && !Self::harvest_queued(queue, source.id) && !taken[i] {
                let ghost before = queue@;
                let task = Harvest::for_source(&source, spaces);
                assert(task_view(task).workers =~= Seq::empty());
                assert(task_view(task) == fresh_task(Action::Harvest(source.id), spaces as nat));
                queue.push(task);
                proof {
                    lemma_queue_push(before, task);
                    let acts = actions(task_views(queue@));
                    assert forall|t: int| 0 <= t < queue@.len() implies actions(
                        task_views(old(queue)@),
                    ).contains(#[trigger] acts[t]) || !queued_outside(queues, r, acts[t]) by {
                        if t < before.len() {
                            assert(acts[t] == actions(task_views(before))[t]);
                        }
                    }
                }
            }
            i += 1;
        }
        assert(room.sources@.take(i as int) == room.sources@);
        rebuilt
    }

    /// Brings a queue of upgrade tasks in step with the room.
    ///
    /// `taken` tells whether a room other than the room at `r` of `queues`
    /// holds a task for the room's controller.
    fn scan_upgrade_queue(
        queue: &mut Vec<Upgrade>,
        room: &Room,
        taken: bool,
        Ghost(queues): Ghost<Seq<RoomTasksView>>,
        Ghost(r): Ghost<int>,
    ) -> (rebuilt: Option<usize>)
        requires
            queue_wf(old(queue)@),
            room.controller matches Some(controller) ==> taken == queued_outside(
                queues,
                r,
                Action::Upgrade(controller.id),
            ),
        ensures
            queue_wf(final(queue)@),
            task_views(final(queue)@) == scanned_upgrade_queue(
                task_views(old(queue)@),
                queues,
                r,
                *room,
            ),
            forall|t: int|
                0 <= t < final(queue)@.len() ==> actions(task_views(old(queue)@)).contains(
                    #[trigger] actions(task_views(final(queue)@))[t],
                ) || !queued_outside(queues, r, actions(task_views(final(queue)@))[t]),
            rebuilt == if upgrade_queue_consistent(old(queue)@.len(), *room) {
                None
            } else {
                Some(old(queue)@.len() as usize)
            },
    {
        let limit: usize = if room.controller.is_some() {
            4
        } else {
            0
        };
        let length: usize = queue.len();
        let mut rebuilt: Option<usize> = None;
        if length > limit {
            queue.clear();
            rebuilt = Some(length);
            assert(task_views(queue@) == Seq::<TaskView>::empty());
        }
        assert forall|t: int| 0 <= t < queue@.len() implies actions(
            task_views(old(queue)@),
        ).contains(#[trigger] actions(task_views(queue@))[t]) by {
            assert(actions(task_views(old(queue)@))[t] == actions(task_views(queue@))[t]);
        }
        match room.controller {
            Some(controller) => {
                if !Self::upgrade_queued(queue, controller.id) && !taken {
                    let ghost before = queue@;
                    let task = Upgrade::for_room(room);
                    assert(task_view(task).workers =~= Seq::empty());
                    assert(task_view(task) == fresh_task(Action::Upgrade(controller.id), 4));
                    queue.push(task);
                    proof {
                        lemma_queue_push(before, task);
                        let acts = actions(task_views(queue@));
                        assert forall|t: int| 0 <= t < queue@.len() implies actions(
                            task_views(old(queue)@),
                        ).contains(#[trigger] acts[t]) || !queued_outside(queues, r, acts[t]) by {
                            if t < before.len() {
                                assert(acts[t] == actions(task_views(before))[t]);
                            }
                        }
                    }
                }
            },
            None => {},
        }
        rebuilt
    }

    /// Queues keep their targets apart when a scan changed the queues of
    /// one room so that every target it queued is queued in no other room.
    proof fn lemma_scanned_room_apart(before: Seq<RoomTasks>, after: Seq<RoomTasks>, r: int)
        requires
            targets_apart(queue_views(before)),
            0 <= r < before.len(),
            after.len() == before.len(),
            forall|q: int| 0 <= q < before.len() && q != r ==> #[trigger] after[q] == before[q],
            after[r].wf(),
            forall|t: int|
                0 <= t < after[r].upgrader@.len() ==> actions(
                    task_views(before[r].upgrader@),
                ).contains(#[trigger] actions(task_views(after[r].upgrader@))[t])
                    || !queued_outside(
                    queue_views(before),
                    r,
                    actions(task_views(after[r].upgrader@))[t],
                ),
            forall|t: int|
                0 <= t < after[r].harvester@.len() ==> actions(
                    task_views(before[r].harvester@),
                ).contains(#[trigger] actions(task_views(after[r].harvester@))[t])
                    || !queued_outside(
                    queue_views(before),
                    r,
                    actions(task_views(after[r].harvester@))[t],
                ),
        ensures
            targets_apart(queue_views(after)),
    {
        let was = queue_views(before);
        let now = queue_views(after);
        lemma_wf_kinds_fit(after[r]);
        assert(now[r] == after[r]@);
        assert(was[r] == before[r]@);
        assert forall|q: int| 0 <= q < was.len() && q != r implies #[trigger] now[q] == was[q] by {
            assert(after[q] == before[q]);
        }
        assert forall|action: Action| #[trigger] room_has(now[r], action) implies room_has(
            was[r],
            action,
        ) || !queued_outside(was, r, action) by {
            if actions(now[r].upgrader).contains(action) {
                let t = choose|t: int|
                    0 <= t < actions(now[r].upgrader).len() && actions(now[r].upgrader)[t]
                        == action;
                assert(actions(task_views(after[r].upgrader@))[t] == action);
            } else {
                let t = choose|t: int|
                    0 <= t < actions(now[r].harvester).len() && actions(now[r].harvester)[t]
                        == action;
                assert(actions(task_views(after[r].harvester@))[t] == action);
            }
        }
        lemma_changed_room_apart(was, now, r);
    }

    /// The notice of a queue that was rebuilt, if it was.
    fn notices_of(rebuilt: Option<usize>, room: u16, role: MinionType) -> (notices: Vec<Notice>)
        ensures
            notices@ == match rebuilt {
                Some(length) => seq![Notice::QueueRebuilt { room, role, length }],
                None => Seq::empty(),
            },
    {
        let mut notices: Vec<Notice> = Vec::new();
        match rebuilt {
            Some(length) => {
                notices.push(Notice::QueueRebuilt { room, role, length });
            },
            None => {},
        }
        notices
    }

    /// Makes sure that the room's upgrade queue holds a task for the room's
    /// controller, unless another room holds one. A queue longer than the
    /// room can have produced is emptied first, and reported.
    fn _room_upgrade_tasks(room: &Room, game_memory: &mut GameMemory) -> (notices: Vec<Notice>)
        requires
            old(game_memory).wf(),
        ensures
            final(game_memory).wf(),
            queue_views(final(game_memory).room_task_queues@) == upgrade_scanned(
                queue_views(old(game_memory).room_task_queues@),
                *room,
            ),
            notices@ == upgrade_notices(queue_views(old(game_memory).room_task_queues@), *room),
            final(game_memory).creeps == old(game_memory).creeps,
            final(game_memory).rooms == old(game_memory).rooms,
            final(game_memory).structure_memories == old(game_memory).structure_memories,
            final(game_memory).last_managers_tick == old(game_memory).last_managers_tick,
            final(game_memory).needs_rebuild == old(game_memory).needs_rebuild,
    {
        let r = Self::enter_room(&mut game_memory.room_task_queues, room.name);
        let ghost entered = game_memory.room_task_queues@;
        let taken: bool = match room.controller {
            Some(controller) => is_queued_outside(
                &game_memory.room_task_queues,
                r,
                Action::Upgrade(controller.id),
            ),
            None => false,
        };
        let rebuilt = Self::scan_upgrade_queue(
            &mut game_memory.room_task_queues[r].upgrader,
            room,
            taken,
            Ghost(queue_views(entered)),
            Ghost(r as int),
        );
        proof {
            assert(queue_views(entered)[r as int] == entered[r as int]@);
            let after = game_memory.room_task_queues@;
            assert(after[r as int]@ == (RoomTasksView {
                upgrader: scanned_upgrade_queue(
                    entered[r as int]@.upgrader,
                    queue_views(entered),
                    r as int,
                    *room,
                ),
                ..entered[r as int]@
            }));

            assert(queue_views(after) == queue_views(entered).update(r as int, after[r as int]@));
            assert(queue_rooms(queue_views(after)) == queue_rooms(queue_views(entered)));
            assert forall|q: int| 0 <= q < after.len() implies (#[trigger] after[q]).wf() by {
                if q != r {
                    assert(after[q] == entered[q]);
                }
            }
            assert forall|t: int| 0 <= t < after[r as int].harvester@.len() implies actions(
                task_views(entered[r as int].harvester@),
            ).contains(#[trigger] actions(task_views(after[r as int].harvester@))[t]) by {
                assert(actions(task_views(entered[r as int].harvester@))[t] == actions(
                    task_views(after[r as int].harvester@),
                )[t]);
            }
            Self::lemma_scanned_room_apart(entered, after, r as int);
        }
        Self::notices_of(rebuilt, room.name, MinionType::Upgrader)
    }

    /// Makes sure that the room's harvest queue holds a task for each source
    /// of the room that creeps can stand around, unless another room holds
    /// one for that source. A queue longer than the room can have produced
    /// is emptied first, and reported; tasks that are queued stay as they
    /// are.
    fn _source_harvesting_tasks(room: &Room, game_memory: &mut GameMemory) -> (notices: Vec<
        Notice,
    >)
        requires
            old(game_memory).wf(),
        ensures
            final(game_memory).wf(),
            queue_views(final(game_memory).room_task_queues@) == harvest_scanned(
                queue_views(old(game_memory).room_task_queues@),
                *room,
            ),
            notices@ == harvest_notices(queue_views(old(game_memory).room_task_queues@), *room),
            final(game_memory).creeps == old(game_memory).creeps,
            final(game_memory).rooms == old(game_memory).rooms,
            final(game_memory).structure_memories == old(game_memory).structure_memories,
            final(game_memory).last_managers_tick == old(game_memory).last_managers_tick,
            final(game_memory).needs_rebuild == old(game_memory).needs_rebuild,
    {
        let r = Self::enter_room(&mut game_memory.room_task_queues, room.name);
        let ghost entered = game_memory.room_task_queues@;
        let mut taken: Vec<bool> = Vec::new();
        let mut i: usize = 0;
        while i < room.sources.len()
            invariant
                i <= room.sources.len(),
                game_memory.room_task_queues@ == entered,
                taken@.len() == i,
                forall|k: int|
                    0 <= k < i ==> #[trigger] taken@[k] == queued_outside(
                        queue_views(entered),
                        r as int,
                        Action::Harvest(room.sources@[k].id),
                    ),
            decreases room.sources.len() - i,
        {
            taken.push(
                is_queued_outside(
                    &game_memory.room_task_queues,
                    r,
                    Action::Harvest(room.sources[i].id),
                ),
            );
            i += 1;
        }
        let rebuilt = Self::scan_harvest_queue(
            &mut game_memory.room_task_queues[r].harvester,
            room,
            &taken,
            Ghost(queue_views(entered)),
            Ghost(r as int),
        );
        proof {
            assert(queue_views(entered)[r as int] == entered[r as int]@);
            let after = game_memory.room_task_queues@;
            assert(after[r as int]@ == (RoomTasksView {
                harvester: scanned_harvest_queue(
                    entered[r as int]@.harvester,
                    queue_views(entered),
                    r as int,
                    *room,
                ),
                ..entered[r as int]@
            }));

            assert(queue_views(after) == queue_views(entered).update(r as int, after[r as int]@));
            assert(queue_rooms(queue_views(after)) == queue_rooms(queue_views(entered)));
            assert forall|q: int| 0 <= q < after.len() implies (#[trigger] after[q]).wf() by {
                if q != r {
                    assert(after[q] == entered[q]);
                }
            }
            assert forall|t: int| 0 <= t < after[r as int].upgrader@.len() implies actions(
                task_views(entered[r as int].upgrader@),
            ).contains(#[trigger] actions(task_views(after[r as int].upgrader@))[t]) by {
                assert(actions(task_views(entered[r as int].upgrader@))[t] == actions(
                    task_views(after[r as int].upgrader@),
                )[t]);
            }
            Self::lemma_scanned_room_apart(entered, after, r as int);
        }
        Self::notices_of(rebuilt, room.name, MinionType::Harvester)
    }

    /// Brings the queues of one room in step with the room, and returns
    /// what there is to report.
    pub fn scan_room(&self, room: &Room, game_memory: &mut GameMemory) -> (notices: Vec<Notice>)
        requires
            old(game_memory).wf(),
        ensures
            final(game_memory).wf(),
            queue_views(final(game_memory).room_task_queues@) == scanned_room(
                queue_views(old(game_memory).room_task_queues@),
                *room,
            ),
            notices@ == room_notices(queue_views(old(game_memory).room_task_queues@), *room),
            final(game_memory).creeps == old(game_memory).creeps,
            final(game_memory).rooms == old(game_memory).rooms,
            final(game_memory).structure_memories == old(game_memory).structure_memories,
            final(game_memory).last_managers_tick == old(game_memory).last_managers_tick,
            final(game_memory).needs_rebuild == old(game_memory).needs_rebuild,
    {
        let mut notices = Self::_room_upgrade_tasks(room, game_memory);
        let mut more = Self::_source_harvesting_tasks(room, game_memory);
        notices.append(&mut more);
        notices
    }

    /// Brings the queues in step with the manager's rooms, one room after
    /// the other, and returns what there is to report. No target is ever
    /// queued in two rooms: what an earlier room has queued, a later room
    /// leaves alone. The records of the creeps are not touched.
    pub fn scan(&self, game_memory: &mut GameMemory) -> (notices: Vec<Notice>)
        requires
            old(game_memory).wf(),
        ensures
            final(game_memory).wf(),
            queue_views(final(game_memory).room_task_queues@) == scanned(
                queue_views(old(game_memory).room_task_queues@),
                self.rooms(),
            ),
            notices@ == scan_notices(
                queue_views(old(game_memory).room_task_queues@),
                self.rooms(),
            ),
            final(game_memory).creeps == old(game_memory).creeps,
            final(game_memory).rooms == old(game_memory).rooms,
            final(game_memory).structure_memories == old(game_memory).structure_memories,
            final(game_memory).last_managers_tick == old(game_memory).last_managers_tick,
            final(game_memory).needs_rebuild == old(game_memory).needs_rebuild,
    {
        let mut notices: Vec<Notice> = Vec::new();
        let mut i: usize = 0;
        assert(self.rooms@.take(0) == Seq::<Room>::empty());
        while i < self.rooms.len()
            invariant
                i <= self.rooms.len(),
                game_memory.wf(),
                queue_views(game_memory.room_task_queues@) == scanned(
                    queue_views(old(game_memory).room_task_queues@),
                    self.rooms@.take(i as int),
                ),
                notices@ == scan_notices(
                    queue_views(old(game_memory).room_task_queues@),
                    self.rooms@.take(i as int),
                ),
                game_memory.creeps == old(game_memory).creeps,
                game_memory.rooms == old(game_memory).rooms,
                game_memory.structure_memories == old(game_memory).structure_memories,
                game_memory.last_managers_tick == old(game_memory).last_managers_tick,
                game_memory.needs_rebuild == old(game_memory).needs_rebuild,
            decreases self.rooms.len() - i,
        {
            proof {
                assert(self.rooms@.take(i as int + 1).drop_last() == self.rooms@.take(i as int));
            }
            let mut more = self.scan_room(&self.rooms[i], game_memory);
            notices.append(&mut more);
            i += 1;
        }
        assert(self.rooms@.take(i as int) == self.rooms@);
        notices
    }

    /// Makes sure that `room` has queues, and finds them.
    fn enter_room(room_task_queues: &mut Vec<RoomTasks>, room: u16) -> (r: usize)
        requires
            queues_wf(old(room_task_queues)@),
            targets_apart(queue_views(old(room_task_queues)@)),
        ensures
            targets_apart(queue_views(final(room_task_queues)@)),
            queue_views(final(room_task_queues)@) == with_room_tasks(
                queue_views(old(room_task_queues)@),
                room,
            ),
            r == first_index(queue_rooms(queue_views(final(room_task_queues)@)), room),
            r < final(room_task_queues)@.len(),
            final(room_task_queues)@[r as int].room == room,
            queues_wf(final(room_task_queues)@),
    {
        let r = find_room_tasks(room_task_queues, room);
        if r < room_task_queues.len() {
            return r;
        }
        let ghost before = room_task_queues@;
        room_task_queues.push(RoomTasks::new(room));
        proof {
            let after = room_task_queues@;
            lemma_first_index(queue_rooms(queue_views(before)), room);
            assert(queue_views(after) == queue_views(before).push(after[r as int]@));
            assert(queue_rooms(queue_views(after)) == queue_rooms(queue_views(before)).push(room));
            assert forall|j: int| 0 <= j < r implies queue_rooms(queue_views(after))[j]
                != room by {
                assert(queue_rooms(queue_views(before))[j] != room);
            }
            lemma_first_index_unique(queue_rooms(queue_views(after)), room, r as int);
            lemma_empty_room_apart(queue_views(before), room);
        }
        r
    }
}

} // verus!
