//! What handing out tasks makes of the records and the queues, and what
//! holds of every outcome.

use vstd::prelude::*;
use crate::mem::actions;
use crate::mem::creep_index;
use crate::mem::CreepEntry;
use crate::mem::CreepMemory;
use crate::mem::entry_names;
use crate::mem::holds;
use crate::mem::kinds_fit;
use crate::mem::lemma_names_kept;
use crate::mem::lemma_record_kept;
use crate::mem::lemma_same_targets_apart;
use crate::mem::lemma_with_record;
use crate::mem::queue_rooms;
use crate::mem::queue_sound;
use crate::mem::queues_sound;
use crate::mem::room_has;
use crate::mem::RoomTasksView;
use crate::mem::targets_apart;
use crate::mem::with_record;
use crate::minion::MinionType;
use crate::task::Action;
use crate::task::holding;
use crate::task::task_sound;
use crate::task::TaskView;
use crate::task::within_capacity;
use crate::util::screeps::doing;
use crate::util::search::first_index;
use crate::util::search::first_where;
use crate::util::search::lemma_filter_keeps_all;
use crate::util::search::lemma_filter_no_duplicates;
use crate::util::search::lemma_first_index;
use crate::util::search::lemma_first_where;
use crate::world::Creep;

verus! {

/// The test that a task has room for the creep of this name: it has room
/// for another worker, and the creep is none of its workers yet.
pub open spec fn open_to(name: Seq<char>) -> spec_fn(TaskView) -> bool {
    |task: TaskView| task.workers.len() < task.capacity && !task.workers.contains(name)
}

/// The task with one worker more.
pub open spec fn joined(task: TaskView, name: Seq<char>) -> TaskView {
    TaskView { workers: task.workers.push(name), ..task }
}

/// The queue after the creep of this name was given the first task, in the
/// order of the queue, that has room for it; the queue itself where no task
/// has.
pub open spec fn assigned_queue(queue: Seq<TaskView>, name: Seq<char>) -> Seq<TaskView> {
    let t = first_where(queue, open_to(name));
    if t < queue.len() {
        queue.update(t, joined(queue[t], name))
    } else {
        queue
    }
}

/// What the creep of this name is assigned to when it is given a task of
/// the queue: the first task, in the order of the queue, that has room for
/// it; nothing where no task has.
pub open spec fn assigned_action(queue: Seq<TaskView>, name: Seq<char>) -> Action {
    let t = first_where(queue, open_to(name));
    if t < queue.len() {
        queue[t].action
    } else {
        Action::Idle
    }
}

/// The queue from which creeps of a kind are given their tasks. Simple
/// workers have none.
pub open spec fn role_queue(tasks: RoomTasksView, role: MinionType) -> Seq<TaskView> {
    match role {
        MinionType::Harvester => tasks.harvester,
        MinionType::Upgrader => tasks.upgrader,
        MinionType::SimpleWorker => Seq::empty(),
    }
}

/// The queues of a room with the queue of one kind of creep replaced.
pub open spec fn with_role_queue(
    tasks: RoomTasksView,
    role: MinionType,
    queue: Seq<TaskView>,
) -> RoomTasksView {
    match role {
        MinionType::Harvester => RoomTasksView { harvester: queue, ..tasks },
        MinionType::Upgrader => RoomTasksView { upgrader: queue, ..tasks },
        MinionType::SimpleWorker => tasks,
    }
}

/// The creep is given a task: its record holds none, and the room it stands
/// in has queues.
pub open spec fn takes_task(memory: CreepMemory, queues: Seq<RoomTasksView>, creep: Creep) -> bool {
    memory.current_task == Action::Idle && first_index(queue_rooms(queues), creep.pos.room)
        < queues.len()
}

/// The queues after the creep was given a task, if it takes one.
pub open spec fn assigned_queues(
    memory: CreepMemory,
    queues: Seq<RoomTasksView>,
    creep: Creep,
) -> Seq<RoomTasksView> {
    let r = first_index(queue_rooms(queues), creep.pos.room);
    if takes_task(memory, queues, creep) {
        queues.update(
            r,
            with_role_queue(
                queues[r],
                memory.worker_type,
                assigned_queue(role_queue(queues[r], memory.worker_type), creep.name@),
            ),
        )
    } else {
        queues
    }
}

/// The creep's record after the creep was given a task, if it takes one.
pub open spec fn assigned_memory(
    memory: CreepMemory,
    queues: Seq<RoomTasksView>,
    creep: Creep,
) -> CreepMemory {
    let r = first_index(queue_rooms(queues), creep.pos.room);
    if takes_task(memory, queues, creep) {
        CreepMemory {
            current_task: assigned_action(
                role_queue(queues[r], memory.worker_type),
                creep.name@,
            ),
            ..memory
        }
    } else {
        memory
    }
}

/// The table and the queues after one creep of the world had its turn: a
/// creep that is still being produced is passed over; any other creep gets
/// a record if it has none, and a task if it takes one.
pub open spec fn assigned_one(
    state: (Seq<CreepEntry>, Seq<RoomTasksView>),
    creep: Creep,
) -> (Seq<CreepEntry>, Seq<RoomTasksView>) {
    if creep.spawning {
        state
    } else {
        let creeps = with_record(state.0, creep.name);
        let c = creep_index(creeps, creep.name@);
        (
            creeps.update(
                c,
                CreepEntry {
                    memory: assigned_memory(creeps[c].memory, state.1, creep),
                    ..creeps[c]
                },
            ),
            assigned_queues(creeps[c].memory, state.1, creep),
        )
    }
}

/// The table and the queues after the creeps of the world had their turn,
/// one after the other.
pub open spec fn assigned_all(
    state: (Seq<CreepEntry>, Seq<RoomTasksView>),
    roster: Seq<Creep>,
) -> (Seq<CreepEntry>, Seq<RoomTasksView>)
    decreases roster.len(),
{
    if roster.len() == 0 {
        state
    } else {
        assigned_one(assigned_all(state, roster.drop_last()), roster.last())
    }
}

/// The task without the workers that have no record, or whose record is
/// assigned to something else.
pub open spec fn released_task(creeps: Seq<CreepEntry>, task: TaskView) -> TaskView {
    TaskView { workers: task.workers.filter(holding(creeps, task.action)), ..task }
}

/// The queue with every task released.
pub open spec fn released_queue(creeps: Seq<CreepEntry>, queue: Seq<TaskView>) -> Seq<TaskView> {
    queue.map_values(|task: TaskView| released_task(creeps, task))
}

/// The queues with every task released.
pub open spec fn released(creeps: Seq<CreepEntry>, queues: Seq<RoomTasksView>) -> Seq<
    RoomTasksView,
> {
    queues.map_values(
        |tasks: RoomTasksView|
            RoomTasksView {
                room: tasks.room,
                upgrader: released_queue(creeps, tasks.upgrader),
                harvester: released_queue(creeps, tasks.harvester),
            },
    )
}

/// The task is for `action`, and the creep of this name is one of its
/// workers.
pub open spec fn lists(task: TaskView, name: Seq<char>, action: Action) -> bool {
    task.action == action && task.workers.contains(name)
}

/// Some task of the queue is for `action` and lists the creep of this name.
pub open spec fn queue_lists(queue: Seq<TaskView>, name: Seq<char>, action: Action) -> bool {
    exists|t: int| 0 <= t < queue.len() && lists(#[trigger] queue[t], name, action)
}

/// Some task of some room is for `action` and lists the creep of this name.
pub open spec fn listed(queues: Seq<RoomTasksView>, name: Seq<char>, action: Action) -> bool {
    exists|r: int|
        0 <= r < queues.len() && (queue_lists((#[trigger] queues[r]).upgrader, name, action)
            || queue_lists(queues[r].harvester, name, action))
}

/// The record of a creep after the tasks were called in: a task that no
/// queue backs, because no queued task for it lists the creep, is taken
/// from the record; nothing else changes.
pub open spec fn recalled_memory(
    queues: Seq<RoomTasksView>,
    name: Seq<char>,
    memory: CreepMemory,
) -> CreepMemory {
    if memory.current_task != Action::Idle && !listed(queues, name, memory.current_task) {
        CreepMemory { current_task: Action::Idle, ..memory }
    } else {
        memory
    }
}

/// The table after the tasks were called in.
pub open spec fn recalled(creeps: Seq<CreepEntry>, queues: Seq<RoomTasksView>) -> Seq<CreepEntry> {
    creeps.map_values(
        |entry: CreepEntry|
            CreepEntry { memory: recalled_memory(queues, entry.name@, entry.memory), ..entry },
    )
}

/// The table and the queues after the managers handed out tasks once:
/// tasks let go of workers, tasks that no queue backs are called in, and the
/// creeps of the world have their turn.
pub open spec fn assign_cycle(
    creeps: Seq<CreepEntry>,
    queues: Seq<RoomTasksView>,
    roster: Seq<Creep>,
) -> (Seq<CreepEntry>, Seq<RoomTasksView>) {
    let let_go = released(creeps, queues);
    assigned_all((recalled(creeps, let_go), let_go), roster)
}

/// The queues after the managers handed out tasks time after time. Each
/// time stands for itself with the records and the creeps of the world as
/// they were then; the queues are taken over from the time before.
pub open spec fn assign_cycles(
    queues: Seq<RoomTasksView>,
    cycles: Seq<(Seq<CreepEntry>, Seq<Creep>)>,
) -> Seq<RoomTasksView>
    decreases cycles.len(),
{
    if cycles.len() == 0 {
        queues
    } else {
        assign_cycle(
            cycles.last().0,
            assign_cycles(queues, cycles.drop_last()),
            cycles.last().1,
        ).1
    }
}

/// Queues keep their targets apart when tasks let go of workers.
pub proof fn lemma_released_apart(creeps: Seq<CreepEntry>, queues: Seq<RoomTasksView>)
    requires
        targets_apart(queues),
    ensures
        targets_apart(released(creeps, queues)),
{
    let after = released(creeps, queues);
    assert forall|r: int| 0 <= r < queues.len() implies actions((#[trigger] after[r]).upgrader)
        == actions(queues[r].upgrader) && actions(after[r].harvester) == actions(
        queues[r].harvester,
    ) by {
        assert(actions(released_queue(creeps, queues[r].upgrader)) == actions(
            queues[r].upgrader,
        ));
        assert(actions(released_queue(creeps, queues[r].harvester)) == actions(
            queues[r].harvester,
        ));
    }
    lemma_same_targets_apart(queues, after);
}

/// Queues keep their targets apart when a creep is given a task.
pub proof fn lemma_assigned_apart(memory: CreepMemory, queues: Seq<RoomTasksView>, creep: Creep)
    requires
        targets_apart(queues),
    ensures
        targets_apart(assigned_queues(memory, queues, creep)),
{
    let after = assigned_queues(memory, queues, creep);
    if takes_task(memory, queues, creep) {
        let room = first_index(queue_rooms(queues), creep.pos.room);
        lemma_first_index(queue_rooms(queues), creep.pos.room);
        let queue = role_queue(queues[room], memory.worker_type);
        lemma_first_where(queue, open_to(creep.name@));
        assert(actions(assigned_queue(queue, creep.name@)) == actions(queue));
        assert forall|r: int| 0 <= r < queues.len() implies actions(
            (#[trigger] after[r]).upgrader,
        ) == actions(queues[r].upgrader) && actions(after[r].harvester) == actions(
            queues[r].harvester,
        ) by {}
        lemma_same_targets_apart(queues, after);
    }
}

/// Queues keep their targets apart while the creeps of the world are given
/// tasks.
pub proof fn lemma_assigned_all_apart(
    state: (Seq<CreepEntry>, Seq<RoomTasksView>),
    roster: Seq<Creep>,
)
    requires
        targets_apart(state.1),
    ensures
        targets_apart(assigned_all(state, roster).1),
    decreases roster.len(),
{
    if roster.len() > 0 {
        lemma_assigned_all_apart(state, roster.drop_last());
        let before = assigned_all(state, roster.drop_last());
        let creep = roster.last();
        if !creep.spawning {
            let creeps = with_record(before.0, creep.name);
            let c = creep_index(creeps, creep.name@);
            lemma_assigned_apart(creeps[c].memory, before.1, creep);
        }
    }
}

/// A queue none of whose tasks has room for another worker gives no creep
/// a task, and stays as it is.
pub proof fn lemma_full_queue_refuses(queue: Seq<TaskView>, name: Seq<char>)
    requires
        forall|t: int|
            0 <= t < queue.len() ==> (#[trigger] queue[t]).workers.len() >= queue[t].capacity,
    ensures
        assigned_queue(queue, name) == queue,
        assigned_action(queue, name) == Action::Idle,
{
    lemma_first_where(queue, open_to(name));
    let t = first_where(queue, open_to(name));
    if t < queue.len() {
        assert(open_to(name)(queue[t]));
        assert(queue[t].workers.len() >= queue[t].capacity);
    }
}

/// No task that any room holds for creeps of a kind has room for another
/// worker.
pub open spec fn no_vacancy(queues: Seq<RoomTasksView>, role: MinionType) -> bool {
    forall|r: int, t: int|
        0 <= r < queues.len() && 0 <= t < role_queue(queues[r], role).len() ==> (
        #[trigger] role_queue(queues[r], role)[t]).workers.len() >= role_queue(
            queues[r],
            role,
        )[t].capacity
}

/// The creep of this name has a record, the record is of this kind, and it
/// holds no task.
pub open spec fn waits(creeps: Seq<CreepEntry>, name: Seq<char>, role: MinionType) -> bool {
    let c = creep_index(creeps, name);
    c < creeps.len() && creeps[c].memory.worker_type == role && creeps[c].memory.current_task
        == Action::Idle
}

/// Where no task for creeps of a kind has room, a creep's turn leaves the
/// queues for that kind as they are, and a creep of that kind that waits
/// for a task goes on waiting.
pub proof fn lemma_turn_without_vacancy(
    state: (Seq<CreepEntry>, Seq<RoomTasksView>),
    creep: Creep,
    name: Seq<char>,
    role: MinionType,
)
    requires
        no_vacancy(state.1, role),
        waits(state.0, name, role),
    ensures
        no_vacancy(assigned_one(state, creep).1, role),
        waits(assigned_one(state, creep).0, name, role),
        assigned_one(state, creep).1.len() == state.1.len(),
        forall|r: int|
            0 <= r < state.1.len() ==> role_queue(
                #[trigger] assigned_one(state, creep).1[r],
                role,
            ) == role_queue(state.1[r], role),
{
    if !creep.spawning {
        let entered = with_record(state.0, creep.name);
        let c = creep_index(entered, creep.name@);
        let memory = entered[c].memory;
        let after = assigned_one(state, creep);
        lemma_with_record(state.0, creep.name);
        lemma_record_kept(state.0, creep.name, name);
        lemma_names_kept(entered, c, assigned_memory(memory, state.1, creep));
        lemma_first_index(entry_names(entered), name);
        let i = creep_index(state.0, name);
        let room = first_index(queue_rooms(state.1), creep.pos.room);
        lemma_first_index(queue_rooms(state.1), creep.pos.room);
        if takes_task(memory, state.1, creep) {
            let queue = role_queue(state.1[room], memory.worker_type);
            if memory.worker_type == role {
                assert forall|t: int| 0 <= t < queue.len() implies (
                #[trigger] queue[t]).workers.len() >= queue[t].capacity by {
                    assert(role_queue(state.1[room], role)[t].workers.len() >= role_queue(
                        state.1[room],
                        role,
                    )[t].capacity);
                }
                lemma_full_queue_refuses(queue, creep.name@);
            }
        }
        assert forall|r: int| 0 <= r < state.1.len() implies role_queue(
            #[trigger] after.1[r],
            role,
        ) == role_queue(state.1[r], role) by {}
        assert forall|r: int, t: int|
            0 <= r < after.1.len() && 0 <= t < role_queue(after.1[r], role).len() implies (
        #[trigger] role_queue(after.1[r], role)[t]).workers.len() >= role_queue(
            after.1[r],
            role,
        )[t].capacity by {
            assert(role_queue(state.1[r], role)[t].workers.len() >= role_queue(
                state.1[r],
                role,
            )[t].capacity);
        }
        if i != c {
            assert(after.0[i] == entered[i]);
        } else {
            assert(entry_names(entered)[i] == name);
            assert(memory.worker_type == role);
        }
    }
}

/// Where no task for creeps of a kind has room, a creep of that kind that
/// waits for a task is still waiting after all creeps of the world had
/// their turn, and the queues for that kind are as they were.
pub proof fn lemma_full_queues_refuse(
    state: (Seq<CreepEntry>, Seq<RoomTasksView>),
    roster: Seq<Creep>,
    name: Seq<char>,
    role: MinionType,
)
    requires
        no_vacancy(state.1, role),
        waits(state.0, name, role),
    ensures
        no_vacancy(assigned_all(state, roster).1, role),
        waits(assigned_all(state, roster).0, name, role),
        assigned_all(state, roster).1.len() == state.1.len(),
        forall|r: int|
            0 <= r < state.1.len() ==> role_queue(
                #[trigger] assigned_all(state, roster).1[r],
                role,
            ) == role_queue(state.1[r], role),
    decreases roster.len(),
{
    if roster.len() > 0 {
        lemma_full_queues_refuse(state, roster.drop_last(), name, role);
        let before = assigned_all(state, roster.drop_last());
        lemma_turn_without_vacancy(before, roster.last(), name, role);
        let after = assigned_all(state, roster);
        assert forall|r: int| 0 <= r < state.1.len() implies role_queue(
            #[trigger] after.1[r],
            role,
        ) == role_queue(state.1[r], role) by {
            assert(role_queue(before.1[r], role) == role_queue(state.1[r], role));
        }
    }
}

/// A queue all of whose workers hold their tasks lets go of nobody.
pub proof fn lemma_release_keeps_holders(creeps: Seq<CreepEntry>, queue: Seq<TaskView>)
    requires
        workers_hold(creeps, queue),
    ensures
        released_queue(creeps, queue) == queue,
{
    let after = released_queue(creeps, queue);
    assert forall|t: int| 0 <= t < queue.len() implies after[t] == queue[t] by {
        let task = queue[t];
        assert forall|w: int| 0 <= w < task.workers.len() implies holding(creeps, task.action)(
            #[trigger] task.workers[w],
        ) by {
            assert(holds(creeps, queue[t].workers[w], queue[t].action));
        }
        lemma_filter_keeps_all(task.workers, holding(creeps, task.action));
    }
    assert(after =~= queue);
}

/// Where, once the tasks have let go of workers, no task for creeps of a
/// kind has room, the managers give a waiting creep of that kind nothing:
/// it is still waiting after they handed out tasks, and the queues for
/// that kind are as the letting go left them.
pub proof fn lemma_assign_refuses_when_full(
    creeps: Seq<CreepEntry>,
    queues: Seq<RoomTasksView>,
    roster: Seq<Creep>,
    name: Seq<char>,
    role: MinionType,
)
    requires
        no_vacancy(released(creeps, queues), role),
        waits(creeps, name, role),
    ensures
        waits(assign_cycle(creeps, queues, roster).0, name, role),
        no_vacancy(assign_cycle(creeps, queues, roster).1, role),
        assign_cycle(creeps, queues, roster).1.len() == queues.len(),
        forall|r: int|
            0 <= r < queues.len() ==> role_queue(
                #[trigger] assign_cycle(creeps, queues, roster).1[r],
                role,
            ) == role_queue(released(creeps, queues)[r], role),
{
    let let_go = released(creeps, queues);
    let called = recalled(creeps, let_go);
    assert(entry_names(called) == entry_names(creeps));
    lemma_first_index(entry_names(creeps), name);
    lemma_full_queues_refuse((called, let_go), roster, name, role);
}

/// A sound queue stays sound when a creep is given one of its tasks.
pub proof fn lemma_assigned_queue_sound(queue: Seq<TaskView>, name: Seq<char>)
    requires
        queue_sound(queue),
    ensures
        queue_sound(assigned_queue(queue, name)),
        actions(assigned_queue(queue, name)) == actions(queue),
{
    lemma_first_where(queue, open_to(name));
    let t = first_where(queue, open_to(name));
    let after = assigned_queue(queue, name);
    assert(actions(after) == actions(queue));
    if t < queue.len() {
        let grown = queue[t].workers.push(name);
        assert(task_sound(queue[t]));
        assert forall|a: int, b: int|
            0 <= a < grown.len() && 0 <= b < grown.len() && a != b implies grown[a]
            != grown[b] by {
            if a < queue[t].workers.len() {
                assert(queue[t].workers.contains(grown[a]));
            }
            if b < queue[t].workers.len() {
                assert(queue[t].workers.contains(grown[b]));
            }
        }
        assert forall|i: int| 0 <= i < after.len() implies task_sound(#[trigger] after[i]) by {
            if i != t {
                assert(task_sound(queue[i]));
            }
        }
    }
}

/// Sound queues stay sound when a creep is given a task.
pub proof fn lemma_assigned_queues_sound(
    memory: CreepMemory,
    queues: Seq<RoomTasksView>,
    creep: Creep,
)
    requires
        queues_sound(queues),
    ensures
        queues_sound(assigned_queues(memory, queues, creep)),
{
    let after = assigned_queues(memory, queues, creep);
    if takes_task(memory, queues, creep) {
        let r = first_index(queue_rooms(queues), creep.pos.room);
        lemma_first_index(queue_rooms(queues), creep.pos.room);
        assert(queue_sound(queues[r].upgrader) && queue_sound(queues[r].harvester));
        lemma_assigned_queue_sound(role_queue(queues[r], memory.worker_type), creep.name@);
        assert(queue_rooms(after) == queue_rooms(queues));
        assert forall|q: int| 0 <= q < after.len() implies queue_sound(
            (#[trigger] after[q]).upgrader,
        ) && queue_sound(after[q].harvester) by {
            if q != r {
                assert(queue_sound(queues[q].upgrader) && queue_sound(queues[q].harvester));
            }
        }
    }
}

/// A sound queue stays sound when its tasks let go of workers.
pub proof fn lemma_released_queue_sound(creeps: Seq<CreepEntry>, queue: Seq<TaskView>)
    requires
        queue_sound(queue),
    ensures
        queue_sound(released_queue(creeps, queue)),
{
    let after = released_queue(creeps, queue);
    assert(actions(after) == actions(queue));
    assert forall|i: int| 0 <= i < after.len() implies task_sound(#[trigger] after[i]) by {
        assert(task_sound(queue[i]));
        lemma_filter_no_duplicates(queue[i].workers, holding(creeps, queue[i].action));
    }
}

/// Sound queues stay sound when their tasks let go of workers.
pub proof fn lemma_released_sound(creeps: Seq<CreepEntry>, queues: Seq<RoomTasksView>)
    requires
        queues_sound(queues),
    ensures
        queues_sound(released(creeps, queues)),
{
    let after = released(creeps, queues);
    assert(queue_rooms(after) == queue_rooms(queues));
    assert forall|q: int| 0 <= q < after.len() implies queue_sound(
        (#[trigger] after[q]).upgrader,
    ) && queue_sound(after[q].harvester) by {
        assert(queue_sound(queues[q].upgrader) && queue_sound(queues[q].harvester));
        lemma_released_queue_sound(creeps, queues[q].upgrader);
        lemma_released_queue_sound(creeps, queues[q].harvester);
    }
}

/// Sound queues stay sound while the creeps of the world are given tasks.
pub proof fn lemma_assigned_all_sound(
    state: (Seq<CreepEntry>, Seq<RoomTasksView>),
    roster: Seq<Creep>,
)
    requires
        queues_sound(state.1),
    ensures
        queues_sound(assigned_all(state, roster).1),
    decreases roster.len(),
{
    if roster.len() > 0 {
        lemma_assigned_all_sound(state, roster.drop_last());
        let before = assigned_all(state, roster.drop_last());
        let creep = roster.last();
        if !creep.spawning {
            let creeps = with_record(before.0, creep.name);
            let c = creep_index(creeps, creep.name@);
            lemma_assigned_queues_sound(creeps[c].memory, before.1, creep);
        }
    }
}

/// Every worker of every task of the queue has a record, and the record is
/// assigned to the task.
pub open spec fn workers_hold(creeps: Seq<CreepEntry>, queue: Seq<TaskView>) -> bool {
    forall|t: int, w: int|
        0 <= t < queue.len() && 0 <= w < queue[t].workers.len() ==> holds(
            creeps,
            #[trigger] queue[t].workers[w],
            queue[t].action,
        )
}

/// Every worker of every task has a record, and the record is assigned to
/// the task.
pub open spec fn assignments_hold(creeps: Seq<CreepEntry>, queues: Seq<RoomTasksView>) -> bool {
    forall|r: int|
        0 <= r < queues.len() ==> workers_hold(creeps, (#[trigger] queues[r]).upgrader)
            && workers_hold(creeps, queues[r].harvester)
}

/// After its tasks let go of workers, every worker that the queue still
/// lists holds its task.
pub proof fn lemma_released_queue_holds(creeps: Seq<CreepEntry>, queue: Seq<TaskView>)
    ensures
        workers_hold(creeps, released_queue(creeps, queue)),
{
    let after = released_queue(creeps, queue);
    assert forall|t: int, w: int|
        0 <= t < after.len() && 0 <= w < after[t].workers.len() implies holds(
        creeps,
        #[trigger] after[t].workers[w],
        after[t].action,
    ) by {
        queue[t].workers.lemma_filter_pred(holding(creeps, queue[t].action), w);
    }
}

/// A worker that holds its task still does after a creep had its turn,
/// unless it is that creep and the creep took a task.
proof fn lemma_turn_keeps_holders(
    state: (Seq<CreepEntry>, Seq<RoomTasksView>),
    creep: Creep,
    worker: Seq<char>,
    action: Action,
)
    requires
        !creep.spawning,
        holds(state.0, worker, action),
        worker != creep.name@ || !takes_task(
            with_record(state.0, creep.name)[creep_index(
                with_record(state.0, creep.name),
                creep.name@,
            )].memory,
            state.1,
            creep,
        ),
    ensures
        holds(assigned_one(state, creep).0, worker, action),
{
    let entered = with_record(state.0, creep.name);
    let c = creep_index(entered, creep.name@);
    let after = assigned_one(state, creep).0;
    lemma_with_record(state.0, creep.name);
    lemma_record_kept(state.0, creep.name, worker);
    lemma_names_kept(entered, c, assigned_memory(entered[c].memory, state.1, creep));
    let i = creep_index(state.0, worker);
    lemma_first_index(entry_names(entered), worker);
    if i != c {
        assert(after[i] == entered[i]);
    } else {
        assert(entry_names(entered)[i] == worker);
    }
}

/// Where every worker holds its task, every worker still does after a
/// creep had its turn.
pub proof fn lemma_turn_keeps_assignments(
    state: (Seq<CreepEntry>, Seq<RoomTasksView>),
    creep: Creep,
)
    requires
        queues_sound(state.1),
        assignments_hold(state.0, state.1),
    ensures
        assignments_hold(assigned_one(state, creep).0, assigned_one(state, creep).1),
{
    if !creep.spawning {
        let entered = with_record(state.0, creep.name);
        let c = creep_index(entered, creep.name@);
        let memory = entered[c].memory;
        let after = assigned_one(state, creep);
        let room = first_index(queue_rooms(state.1), creep.pos.room);
        lemma_with_record(state.0, creep.name);
        lemma_first_index(queue_rooms(state.1), creep.pos.room);
        assert forall|r: int| 0 <= r < after.1.len() implies workers_hold(
            after.0,
            (#[trigger] after.1[r]).upgrader,
        ) && workers_hold(after.0, after.1[r].harvester) by {
            assert(workers_hold(state.0, state.1[r].upgrader));
            assert(workers_hold(state.0, state.1[r].harvester));
            assert(queue_sound(state.1[r].upgrader) && queue_sound(state.1[r].harvester));
            lemma_queue_after_turn(state, creep, state.1[r].upgrader, after.1[r].upgrader);
            lemma_queue_after_turn(state, creep, state.1[r].harvester, after.1[r].harvester);
        }
    }
}

/// A queue whose workers hold their tasks, and that a creep's turn either
/// left alone or gave the creep a task of, is a queue whose workers hold
/// their tasks after the turn.
proof fn lemma_queue_after_turn(
    state: (Seq<CreepEntry>, Seq<RoomTasksView>),
    creep: Creep,
    before: Seq<TaskView>,
    after: Seq<TaskView>,
)
    requires
        !creep.spawning,
        queue_sound(before),
        workers_hold(state.0, before),
        after == before || ({
            let entered = with_record(state.0, creep.name);
            let memory = entered[creep_index(entered, creep.name@)].memory;
            &&& takes_task(memory, state.1, creep)
            &&& after == assigned_queue(before, creep.name@)
            &&& assigned_memory(memory, state.1, creep).current_task == assigned_action(
                before,
                creep.name@,
            )
        }),
    ensures
        workers_hold(assigned_one(state, creep).0, after),
{
    let entered = with_record(state.0, creep.name);
    let c = creep_index(entered, creep.name@);
    let memory = entered[c].memory;
    let table = assigned_one(state, creep).0;
    lemma_with_record(state.0, creep.name);
    lemma_names_kept(entered, c, assigned_memory(memory, state.1, creep));
    lemma_first_where(before, open_to(creep.name@));
    let joined_at = first_where(before, open_to(creep.name@));
    assert forall|t: int, w: int|
        0 <= t < after.len() && 0 <= w < after[t].workers.len() implies holds(
        table,
        #[trigger] after[t].workers[w],
        after[t].action,
    ) by {
        let worker = after[t].workers[w];
        if after != before && t == joined_at && w == before[t].workers.len() {
            assert(worker == creep.name@);
            assert(creep_index(table, worker) == c);
        } else {
            assert(worker == before[t].workers[w]);
            assert(holds(state.0, worker, before[t].action));
            assert(task_sound(before[t]));
            if worker == creep.name@ {
                assert(creep_index(state.0, worker) < state.0.len());
                assert(entered == state.0);
                assert(memory.current_task == before[t].action);
                assert(!takes_task(memory, state.1, creep));
            }
            lemma_turn_keeps_holders(state, creep, worker, before[t].action);
        }
    }
}

/// Where every worker holds its task, every worker still does after the
/// creeps of the world had their turn.
pub proof fn lemma_turns_keep_assignments(
    state: (Seq<CreepEntry>, Seq<RoomTasksView>),
    roster: Seq<Creep>,
)
    requires
        queues_sound(state.1),
        assignments_hold(state.0, state.1),
    ensures
        assignments_hold(assigned_all(state, roster).0, assigned_all(state, roster).1),
    decreases roster.len(),
{
    if roster.len() > 0 {
        lemma_turns_keep_assignments(state, roster.drop_last());
        lemma_assigned_all_sound(state, roster.drop_last());
        lemma_turn_keeps_assignments(assigned_all(state, roster.drop_last()), roster.last());
    }
}

/// Calling in the tasks that no queue backs takes no task from a worker
/// that a task lists.
pub proof fn lemma_recalled_holds(creeps: Seq<CreepEntry>, queues: Seq<RoomTasksView>)
    requires
        assignments_hold(creeps, queues),
    ensures
        assignments_hold(recalled(creeps, queues), queues),
{
    let after = recalled(creeps, queues);
    assert(entry_names(after) == entry_names(creeps));
    assert forall|r: int| 0 <= r < queues.len() implies workers_hold(
        after,
        (#[trigger] queues[r]).upgrader,
    ) && workers_hold(after, queues[r].harvester) by {
        assert(workers_hold(creeps, queues[r].upgrader));
        assert(workers_hold(creeps, queues[r].harvester));
        assert forall|t: int, w: int|
            0 <= t < queues[r].upgrader.len() && 0 <= w
                < queues[r].upgrader[t].workers.len() implies holds(
            after,
            #[trigger] queues[r].upgrader[t].workers[w],
            queues[r].upgrader[t].action,
        ) by {
            let task = queues[r].upgrader[t];
            let worker = task.workers[w];
            assert(holds(creeps, worker, task.action));
            lemma_first_index(entry_names(creeps), worker);
            assert(entry_names(creeps)[creep_index(creeps, worker)] == worker);
            assert(lists(task, worker, task.action));
            assert(queue_lists(queues[r].upgrader, worker, task.action));
            assert(listed(queues, worker, task.action));
        }
        assert forall|t: int, w: int|
            0 <= t < queues[r].harvester.len() && 0 <= w
                < queues[r].harvester[t].workers.len() implies holds(
            after,
            #[trigger] queues[r].harvester[t].workers[w],
            queues[r].harvester[t].action,
        ) by {
            let task = queues[r].harvester[t];
            let worker = task.workers[w];
            assert(holds(creeps, worker, task.action));
            lemma_first_index(entry_names(creeps), worker);
            assert(entry_names(creeps)[creep_index(creeps, worker)] == worker);
            assert(lists(task, worker, task.action));
            assert(queue_lists(queues[r].harvester, worker, task.action));
            assert(listed(queues, worker, task.action));
        }
    }
}

/// After the managers handed out tasks, every creep that a task lists as
/// its worker has a record, and that record is assigned to the task.
pub proof fn lemma_assign_consistent(
    creeps: Seq<CreepEntry>,
    queues: Seq<RoomTasksView>,
    roster: Seq<Creep>,
)
    requires
        queues_sound(queues),
    ensures
        assignments_hold(
            assign_cycle(creeps, queues, roster).0,
            assign_cycle(creeps, queues, roster).1,
        ),
{
    lemma_released_sound(creeps, queues);
    let let_go = released(creeps, queues);
    assert forall|r: int| 0 <= r < let_go.len() implies workers_hold(
        creeps,
        (#[trigger] let_go[r]).upgrader,
    ) && workers_hold(creeps, let_go[r].harvester) by {
        lemma_released_queue_holds(creeps, queues[r].upgrader);
        lemma_released_queue_holds(creeps, queues[r].harvester);
    }
    lemma_recalled_holds(creeps, let_go);
    lemma_turns_keep_assignments((recalled(creeps, let_go), let_go), roster);
}

/// Every record that is assigned to something is listed for it by a queued
/// task.
pub open spec fn assignments_backed(creeps: Seq<CreepEntry>, queues: Seq<RoomTasksView>) -> bool {
    forall|i: int|
        0 <= i < creeps.len() && (#[trigger] creeps[i]).memory.current_task != Action::Idle
            ==> listed(queues, creeps[i].name@, creeps[i].memory.current_task)
}

/// After the tasks that no queue backs were called in, every task that a
/// record holds is backed.
pub proof fn lemma_recalled_backed(creeps: Seq<CreepEntry>, queues: Seq<RoomTasksView>)
    ensures
        assignments_backed(recalled(creeps, queues), queues),
{
}

/// A creep that a queue lists for something is still listed for it after
/// another creep was given a task of the queue.
proof fn lemma_queue_keeps_listing(
    queue: Seq<TaskView>,
    joiner: Seq<char>,
    name: Seq<char>,
    action: Action,
)
    requires
        queue_lists(queue, name, action),
    ensures
        queue_lists(assigned_queue(queue, joiner), name, action),
{
    lemma_first_where(queue, open_to(joiner));
    let after = assigned_queue(queue, joiner);
    let t = choose|t: int| 0 <= t < queue.len() && lists(#[trigger] queue[t], name, action);
    let w = choose|w: int| 0 <= w < queue[t].workers.len() && queue[t].workers[w] == name;
    assert(after[t].workers[w] == name);
    assert(lists(after[t], name, action));
}

/// A creep that is listed for something is still listed for it after
/// another creep had its turn.
proof fn lemma_turn_keeps_listing(
    memory: CreepMemory,
    queues: Seq<RoomTasksView>,
    creep: Creep,
    name: Seq<char>,
    action: Action,
)
    requires
        listed(queues, name, action),
    ensures
        listed(assigned_queues(memory, queues, creep), name, action),
{
    let after = assigned_queues(memory, queues, creep);
    let r = choose|r: int|
        0 <= r < queues.len() && (queue_lists((#[trigger] queues[r]).upgrader, name, action)
            || queue_lists(queues[r].harvester, name, action));
    if takes_task(memory, queues, creep) {
        lemma_first_index(queue_rooms(queues), creep.pos.room);
        if queue_lists(queues[r].upgrader, name, action) {
            lemma_queue_keeps_listing(queues[r].upgrader, creep.name@, name, action);
        }
        if queue_lists(queues[r].harvester, name, action) {
            lemma_queue_keeps_listing(queues[r].harvester, creep.name@, name, action);
        }
    }
    assert(queue_lists(after[r].upgrader, name, action) || queue_lists(
        after[r].harvester,
        name,
        action,
    ));
}

/// Where every task that a record holds is backed, it still is after a
/// creep had its turn.
pub proof fn lemma_turn_keeps_backing(state: (Seq<CreepEntry>, Seq<RoomTasksView>), creep: Creep)
    requires
        assignments_backed(state.0, state.1),
    ensures
        assignments_backed(assigned_one(state, creep).0, assigned_one(state, creep).1),
{
    if !creep.spawning {
        let entered = with_record(state.0, creep.name);
        let c = creep_index(entered, creep.name@);
        let memory = entered[c].memory;
        let after = assigned_one(state, creep);
        lemma_with_record(state.0, creep.name);
        assert forall|i: int|
            0 <= i < after.0.len() && (#[trigger] after.0[i]).memory.current_task
                != Action::Idle implies listed(
            after.1,
            after.0[i].name@,
            after.0[i].memory.current_task,
        ) by {
            if i != c {
                assert(after.0[i] == entered[i]);
                assert(entered[i] == state.0[i]);
                lemma_turn_keeps_listing(
                    memory,
                    state.1,
                    creep,
                    state.0[i].name@,
                    state.0[i].memory.current_task,
                );
            } else if takes_task(memory, state.1, creep) {
                let r = first_index(queue_rooms(state.1), creep.pos.room);
                lemma_first_index(queue_rooms(state.1), creep.pos.room);
                let queue = role_queue(state.1[r], memory.worker_type);
                lemma_first_where(queue, open_to(creep.name@));
                let t = first_where(queue, open_to(creep.name@));
                let joined_queue = assigned_queue(queue, creep.name@);
                assert(joined_queue[t].workers[queue[t].workers.len() as int] == creep.name@);
                assert(lists(joined_queue[t], creep.name@, queue[t].action));
                assert(queue_lists(joined_queue, creep.name@, queue[t].action));
                assert(after.1[r].upgrader == joined_queue || after.1[r].harvester
                    == joined_queue);
            } else {
                assert(after.0[i].memory == memory);
                assert(entered == state.0);
                assert(state.0[i].memory.current_task != Action::Idle);
            }
        }
    }
}

/// Where every task that a record holds is backed, it still is after the
/// creeps of the world had their turn.
pub proof fn lemma_turns_keep_backing(
    state: (Seq<CreepEntry>, Seq<RoomTasksView>),
    roster: Seq<Creep>,
)
    requires
        assignments_backed(state.0, state.1),
    ensures
        assignments_backed(assigned_all(state, roster).0, assigned_all(state, roster).1),
    decreases roster.len(),
{
    if roster.len() > 0 {
        lemma_turns_keep_backing(state, roster.drop_last());
        lemma_turn_keeps_backing(assigned_all(state, roster.drop_last()), roster.last());
    }
}

/// After the managers handed out tasks, every record that is assigned to
/// something is listed for it by a queued task.
pub proof fn lemma_assign_backed(
    creeps: Seq<CreepEntry>,
    queues: Seq<RoomTasksView>,
    roster: Seq<Creep>,
)
    ensures
        assignments_backed(
            assign_cycle(creeps, queues, roster).0,
            assign_cycle(creeps, queues, roster).1,
        ),
{
    let let_go = released(creeps, queues);
    lemma_recalled_backed(creeps, let_go);
    lemma_turns_keep_backing((recalled(creeps, let_go), let_go), roster);
}

/// The records that are assigned to `action`, in the order of the table.
pub open spec fn holders(creeps: Seq<CreepEntry>, action: Action) -> Seq<CreepEntry> {
    creeps.filter(doing(action))
}

/// The harvest task `t` of room `r` is the only queued task for its
/// source.
pub open spec fn sole_harvest_task(queues: Seq<RoomTasksView>, r: int, t: int) -> bool {
    &&& 0 <= r < queues.len()
    &&& 0 <= t < queues[r].harvester.len()
    &&& forall|r2: int, t2: int|
        0 <= r2 < queues.len() && 0 <= t2 < queues[r2].harvester.len() && (
        #[trigger] queues[r2].harvester[t2]).action == queues[r].harvester[t].action ==> r2 == r
            && t2 == t
    &&& forall|r2: int, t2: int|
        0 <= r2 < queues.len() && 0 <= t2 < queues[r2].upgrader.len() ==> (
        #[trigger] queues[r2].upgrader[t2]).action != queues[r].harvester[t].action
}

/// The records that are assigned to something stand under different names,
/// each is one of the table's records, and each holds what it is listed
/// for.
proof fn lemma_holders(creeps: Seq<CreepEntry>, action: Action)
    requires
        entry_names(creeps).no_duplicates(),
    ensures
        entry_names(holders(creeps, action)).no_duplicates(),
        forall|k: int|
            0 <= k < holders(creeps, action).len() ==> creeps.contains(
                #[trigger] holders(creeps, action)[k],
            ) && holders(creeps, action)[k].memory.current_task == action,
    decreases creeps.len(),
{
    reveal_with_fuel(Seq::filter, 2);
    let found = holders(creeps, action);
    if creeps.len() > 0 {
        let front = creeps.drop_last();
        let last = creeps.last();
        assert(entry_names(front) == entry_names(creeps).drop_last());
        lemma_holders(front, action);
        let before = holders(front, action);
        assert forall|k: int| 0 <= k < found.len() implies creeps.contains(#[trigger] found[k])
            && found[k].memory.current_task == action by {
            if k < before.len() {
                assert(front.contains(before[k]));
                let j = choose|j: int| 0 <= j < front.len() && front[j] == before[k];
                assert(creeps[j] == found[k]);
            } else {
                assert(creeps[creeps.len() - 1] == found[k]);
            }
        }
        assert forall|a: int, b: int|
            0 <= a < found.len() && 0 <= b < found.len() && a != b implies entry_names(found)[a]
            != entry_names(found)[b] by {
            let ia = if a < before.len() {
                assert(front.contains(before[a]));
                choose|j: int| 0 <= j < front.len() && front[j] == before[a]
            } else {
                creeps.len() - 1
            };
            let ib = if b < before.len() {
                assert(front.contains(before[b]));
                choose|j: int| 0 <= j < front.len() && front[j] == before[b]
            } else {
                creeps.len() - 1
            };
            assert(entry_names(creeps)[ia] == entry_names(found)[a]);
            assert(entry_names(creeps)[ib] == entry_names(found)[b]);
            if a < before.len() && b < before.len() {
                assert(entry_names(before)[a] != entry_names(before)[b]);
            }
        }
    }
}

/// No more records are assigned to something than there are names that all
/// of them are among.
proof fn lemma_holders_bounded(creeps: Seq<CreepEntry>, action: Action, workers: Seq<Seq<char>>)
    requires
        entry_names(creeps).no_duplicates(),
        forall|i: int|
            0 <= i < creeps.len() && (#[trigger] creeps[i]).memory.current_task == action
                ==> workers.contains(creeps[i].name@),
    ensures
        holders(creeps, action).len() <= workers.len(),
{
    lemma_holders(creeps, action);
    let found = holders(creeps, action);
    let found_names = entry_names(found);
    found_names.unique_seq_to_set();
    workers.lemma_cardinality_of_set();
    assert forall|name: Seq<char>| found_names.to_set().contains(name) implies workers.to_set().contains(
        name,
    ) by {
        let k = choose|k: int| 0 <= k < found_names.len() && found_names[k] == name;
        assert(creeps.contains(found[k]));
        let i = choose|i: int| 0 <= i < creeps.len() && creeps[i] == found[k];
        assert(workers.contains(creeps[i].name@));
    }
    vstd::set_lib::lemma_len_subset(found_names.to_set(), workers.to_set());
}

/// Where every task that a record holds is backed, no more records are
/// assigned to a source than its harvest task has room for, provided the
/// task is the only one for the source.
pub proof fn lemma_holders_within_capacity(
    creeps: Seq<CreepEntry>,
    queues: Seq<RoomTasksView>,
    r: int,
    t: int,
)
    requires
        entry_names(creeps).no_duplicates(),
        queues_sound(queues),
        assignments_backed(creeps, queues),
        sole_harvest_task(queues, r, t),
    ensures
        holders(creeps, queues[r].harvester[t].action).len() <= queues[r].harvester[t].capacity,
{
    let task = queues[r].harvester[t];
    assert(queue_sound(queues[r].harvester));
    assert(task_sound(task));
    assert forall|i: int|
        0 <= i < creeps.len() && (#[trigger] creeps[i]).memory.current_task
            == task.action implies task.workers.contains(creeps[i].name@) by {
        let name = creeps[i].name@;
        assert(listed(queues, name, task.action));
        let r2 = choose|r2: int|
            0 <= r2 < queues.len() && (queue_lists(
                (#[trigger] queues[r2]).upgrader,
                name,
                task.action,
            ) || queue_lists(queues[r2].harvester, name, task.action));
        if queue_lists(queues[r2].upgrader, name, task.action) {
            let t2 = choose|t2: int|
                0 <= t2 < queues[r2].upgrader.len() && lists(
                    #[trigger] queues[r2].upgrader[t2],
                    name,
                    task.action,
                );
            assert(queues[r2].upgrader[t2].action == task.action);
        } else {
            let t2 = choose|t2: int|
                0 <= t2 < queues[r2].harvester.len() && lists(
                    #[trigger] queues[r2].harvester[t2],
                    name,
                    task.action,
                );
            assert(queues[r2].harvester[t2].action == task.action);
        }
    }
    lemma_holders_bounded(creeps, task.action, task.workers);
}

/// The records stand under different names after the creeps of the world
/// had their turn, if they did before.
pub proof fn lemma_turns_keep_names(
    state: (Seq<CreepEntry>, Seq<RoomTasksView>),
    roster: Seq<Creep>,
)
    requires
        entry_names(state.0).no_duplicates(),
    ensures
        entry_names(assigned_all(state, roster).0).no_duplicates(),
    decreases roster.len(),
{
    if roster.len() > 0 {
        lemma_turns_keep_names(state, roster.drop_last());
        let before = assigned_all(state, roster.drop_last());
        let creep = roster.last();
        if !creep.spawning {
            let entered = with_record(before.0, creep.name);
            let c = creep_index(entered, creep.name@);
            lemma_with_record(before.0, creep.name);
            lemma_names_kept(entered, c, assigned_memory(entered[c].memory, before.1, creep));
            lemma_first_index(entry_names(before.0), creep.name@);
            if creep_index(before.0, creep.name@) >= before.0.len() {
                let names = entry_names(before.0);
                assert(entry_names(entered) == names.push(creep.name@));
                assert forall|a: int, b: int|
                    0 <= a < entered.len() && 0 <= b < entered.len() && a != b implies entry_names(
                    entered,
                )[a] != entry_names(entered)[b] by {
                    if a < names.len() {
                        assert(names.contains(names[a]));
                    }
                    if b < names.len() {
                        assert(names.contains(names[b]));
                    }
                }
            }
        }
    }
}

/// Where targets are kept apart, every harvest task is the only queued task
/// for its source.
pub proof fn lemma_apart_means_sole(queues: Seq<RoomTasksView>, r: int, t: int)
    requires
        queues_sound(queues),
        targets_apart(queues),
        0 <= r < queues.len(),
        0 <= t < queues[r].harvester.len(),
    ensures
        sole_harvest_task(queues, r, t),
{
    let action = queues[r].harvester[t].action;
    assert(kinds_fit(queues[r]));
    assert(actions(queues[r].harvester)[t] == action);
    assert(room_has(queues[r], action));
    assert(queue_sound(queues[r].harvester));
    assert forall|r2: int, t2: int|
        0 <= r2 < queues.len() && 0 <= t2 < queues[r2].harvester.len() && (
        #[trigger] queues[r2].harvester[t2]).action == action implies r2 == r && t2 == t by {
        assert(actions(queues[r2].harvester)[t2] == action);
        assert(room_has(queues[r2], action));
        if r2 == r && t2 != t {
            assert(actions(queues[r].harvester)[t2] == actions(queues[r].harvester)[t]);
        }
    }
    assert forall|r2: int, t2: int|
        0 <= r2 < queues.len() && 0 <= t2 < queues[r2].upgrader.len() implies (
    #[trigger] queues[r2].upgrader[t2]).action != action by {
        assert(kinds_fit(queues[r2]));
    }
}

/// No more records are assigned to any source than its harvest task has
/// room for.
pub open spec fn harvesters_bounded(creeps: Seq<CreepEntry>, queues: Seq<RoomTasksView>) -> bool {
    forall|r: int, t: int|
        0 <= r < queues.len() && 0 <= t < queues[r].harvester.len() ==> holders(
            creeps,
            (#[trigger] queues[r].harvester[t]).action,
        ).len() <= queues[r].harvester[t].capacity
}

/// After the managers handed out tasks, no more records are assigned to any
/// source than can stand around it.
pub proof fn lemma_assign_bounds_harvesters(
    creeps: Seq<CreepEntry>,
    queues: Seq<RoomTasksView>,
    roster: Seq<Creep>,
)
    requires
        entry_names(creeps).no_duplicates(),
        queues_sound(queues),
        targets_apart(queues),
    ensures
        harvesters_bounded(
            assign_cycle(creeps, queues, roster).0,
            assign_cycle(creeps, queues, roster).1,
        ),
{
    let let_go = released(creeps, queues);
    let after = assign_cycle(creeps, queues, roster);
    assert(entry_names(recalled(creeps, let_go)) == entry_names(creeps));
    lemma_turns_keep_names((recalled(creeps, let_go), let_go), roster);
    lemma_assign_within_capacity(creeps, queues, roster);
    lemma_assign_backed(creeps, queues, roster);
    lemma_released_apart(creeps, queues);
    lemma_assigned_all_apart((recalled(creeps, let_go), let_go), roster);
    assert forall|r: int, t: int|
        0 <= r < after.1.len() && 0 <= t < after.1[r].harvester.len() implies holders(
        after.0,
        (#[trigger] after.1[r].harvester[t]).action,
    ).len() <= after.1[r].harvester[t].capacity by {
        lemma_apart_means_sole(after.1, r, t);
        lemma_holders_within_capacity(after.0, after.1, r, t);
    }
}

/// However often the managers hand out tasks, and whatever becomes of the
/// creeps' records in between, no more records are assigned to any source
/// than can stand around it once the managers have handed out tasks.
pub proof fn lemma_harvesters_never_overbooked(
    queues: Seq<RoomTasksView>,
    cycles: Seq<(Seq<CreepEntry>, Seq<Creep>)>,
)
    requires
        queues_sound(queues),
        targets_apart(queues),
        cycles.len() > 0,
        entry_names(cycles.last().0).no_duplicates(),
    ensures
        harvesters_bounded(
            assign_cycle(
                cycles.last().0,
                assign_cycles(queues, cycles.drop_last()),
                cycles.last().1,
            ).0,
            assign_cycles(queues, cycles),
        ),
{
    lemma_harvest_never_overbooked(queues, cycles.drop_last());
    lemma_cycles_keep_apart(queues, cycles.drop_last());
    lemma_assign_bounds_harvesters(
        cycles.last().0,
        assign_cycles(queues, cycles.drop_last()),
        cycles.last().1,
    );
}

/// Queues keep their targets apart however often the managers hand out
/// tasks.
pub proof fn lemma_cycles_keep_apart(
    queues: Seq<RoomTasksView>,
    cycles: Seq<(Seq<CreepEntry>, Seq<Creep>)>,
)
    requires
        targets_apart(queues),
    ensures
        targets_apart(assign_cycles(queues, cycles)),
    decreases cycles.len(),
{
    if cycles.len() > 0 {
        lemma_cycles_keep_apart(queues, cycles.drop_last());
        let before = assign_cycles(queues, cycles.drop_last());
        let creeps = cycles.last().0;
        let let_go = released(creeps, before);
        lemma_released_apart(creeps, before);
        lemma_assigned_all_apart((recalled(creeps, let_go), let_go), cycles.last().1);
    }
}

/// After the managers handed out tasks, no task has more workers than its
/// capacity, and none has a worker twice.
pub proof fn lemma_assign_within_capacity(
    creeps: Seq<CreepEntry>,
    queues: Seq<RoomTasksView>,
    roster: Seq<Creep>,
)
    requires
        queues_sound(queues),
    ensures
        queues_sound(assign_cycle(creeps, queues, roster).1),
        forall|r: int, t: int|
            0 <= r < assign_cycle(creeps, queues, roster).1.len() && 0 <= t < assign_cycle(
                creeps,
                queues,
                roster,
            ).1[r].harvester.len() ==> within_capacity(
                #[trigger] assign_cycle(creeps, queues, roster).1[r].harvester[t],
            ),
        forall|r: int, t: int|
            0 <= r < assign_cycle(creeps, queues, roster).1.len() && 0 <= t < assign_cycle(
                creeps,
                queues,
                roster,
            ).1[r].upgrader.len() ==> within_capacity(
                #[trigger] assign_cycle(creeps, queues, roster).1[r].upgrader[t],
            ),
{
    lemma_released_sound(creeps, queues);
    let let_go = released(creeps, queues);
    lemma_assigned_all_sound((recalled(creeps, let_go), let_go), roster);
    let after = assign_cycle(creeps, queues, roster).1;
    assert forall|r: int, t: int|
        0 <= r < after.len() && 0 <= t < after[r].harvester.len() implies within_capacity(
        #[trigger] after[r].harvester[t],
    ) by {
        assert(queue_sound(after[r].harvester));
    }
    assert forall|r: int, t: int|
        0 <= r < after.len() && 0 <= t < after[r].upgrader.len() implies within_capacity(
        #[trigger] after[r].upgrader[t],
    ) by {
        assert(queue_sound(after[r].upgrader));
    }
}

/// However often the managers hand out tasks, and whatever becomes of the
/// creeps in between, no source ever has more creeps assigned to its
/// harvest task than can stand around it, and none twice.
pub proof fn lemma_harvest_never_overbooked(
    queues: Seq<RoomTasksView>,
    cycles: Seq<(Seq<CreepEntry>, Seq<Creep>)>,
)
    requires
        queues_sound(queues),
    ensures
        queues_sound(assign_cycles(queues, cycles)),
        forall|r: int, t: int|
            0 <= r < assign_cycles(queues, cycles).len() && 0 <= t < assign_cycles(
                queues,
                cycles,
            )[r].harvester.len() ==> within_capacity(
                #[trigger] assign_cycles(queues, cycles)[r].harvester[t],
            ),
    decreases cycles.len(),
{
    if cycles.len() > 0 {
        lemma_harvest_never_overbooked(queues, cycles.drop_last());
        lemma_assign_within_capacity(
            cycles.last().0,
            assign_cycles(queues, cycles.drop_last()),
            cycles.last().1,
        );
    }
    let after = assign_cycles(queues, cycles);
    assert forall|r: int, t: int|
        0 <= r < after.len() && 0 <= t < after[r].harvester.len() implies within_capacity(
        #[trigger] after[r].harvester[t],
    ) by {
        assert(queue_sound(after[r].harvester));
    }
}

} // verus!
