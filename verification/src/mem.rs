//! The colony's memory: what is kept from one tick to the next.

use vstd::prelude::*;
use crate::action::ActionStep;
use crate::minion::MinionType;
use crate::task::Action;
use crate::task::harvest::Harvest;
use crate::task::Task;
use crate::task::task_sound;
use crate::task::task_view;
use crate::task::task_wf;
use crate::task::TaskView;
use crate::task::upgrade::Upgrade;
use crate::util::path::CreepPath;
use crate::util::search::first_index;
use crate::util::search::lemma_first_index;
use crate::util::search::lemma_first_index_push;
use crate::util::search::lemma_first_index_unique;
use crate::world::Position;

verus! {

/// What the colony remembers of one creep.
#[derive(Clone, Debug, PartialEq, Eq)]
pub struct CreepMemory {
    pub worker_type: MinionType,
    /// The cached movement plan, if any.
    pub current_path: Option<CreepPath>,
    pub last_position: Option<Position>,
    pub current_task: Action,
    /// Where the creep stands in carrying out its task; `None` until its
    /// first run.
    pub current_task_step: Option<ActionStep>,
}

/// The record of a creep nothing is known of yet: a simple worker without
/// task, step or path.
pub open spec fn blank_memory() -> CreepMemory {
    CreepMemory {
        worker_type: MinionType::SimpleWorker,
        current_path: None,
        last_position: None,
        current_task: Action::Idle,
        current_task_step: None,
    }
}

impl Default for CreepMemory {
    fn default() -> (memory: CreepMemory)
        ensures
            memory == blank_memory(),
    {
        CreepMemory {
            worker_type: MinionType::SimpleWorker,
            last_position: None,
            current_path: None,
            current_task: Action::Idle,
            current_task_step: None,
        }
    }
}

/// The record of one creep in the table of all creeps, under the creep's
/// name.
#[derive(Clone, Debug, PartialEq, Eq)]
pub struct CreepEntry {
    pub name: String,
    pub memory: CreepMemory,
}

/// The names under which the records stand, in order.
pub open spec fn entry_names(creeps: Seq<CreepEntry>) -> Seq<Seq<char>> {
    creeps.map_values(|entry: CreepEntry| entry.name@)
}

/// Index of the record that stands under `name`; the table's length where
/// none does.
pub open spec fn creep_index(creeps: Seq<CreepEntry>, name: Seq<char>) -> int {
    first_index(entry_names(creeps), name)
}

/// The table has a record under `name`, and that record is assigned to
/// `action`.
pub open spec fn holds(creeps: Seq<CreepEntry>, name: Seq<char>, action: Action) -> bool {
    let i = creep_index(creeps, name);
    i < creeps.len() && creeps[i].memory.current_task == action
}

/// Finds the record that stands under `name`.
pub fn find_creep(creeps: &Vec<CreepEntry>, name: &String) -> (index: usize)
    ensures
        index == creep_index(creeps@, name@),
        index <= creeps.len(),
        index < creeps.len() ==> creeps@[index as int].name@ == name@,
{
    let mut i: usize = 0;
    while i < creeps.len()
        invariant
            i <= creeps.len(),
            forall|j: int| 0 <= j < i ==> entry_names(creeps@)[j] != name@,
        decreases creeps.len() - i,
    {
        if creeps[i].name == *name {
            proof {
                assert(entry_names(creeps@)[i as int] == name@);
                lemma_first_index_unique(entry_names(creeps@), name@, i as int);
            }
            return i;
        }
        i += 1;
    }
    proof {
        lemma_first_index_unique(entry_names(creeps@), name@, i as int);
    }
    i
}

/// The table with a blank record added for the creep where it has none.
pub open spec fn with_record(creeps: Seq<CreepEntry>, name: String) -> Seq<CreepEntry> {
    if creep_index(creeps, name@) < creeps.len() {
        creeps
    } else {
        creeps.push(CreepEntry { name, memory: blank_memory() })
    }
}

/// The creep has a record once it was given one where it had none, and the
/// record stands under the creep's name.
pub proof fn lemma_with_record(creeps: Seq<CreepEntry>, name: String)
    ensures
        0 <= creep_index(with_record(creeps, name), name@) < with_record(creeps, name).len(),
        with_record(creeps, name)[creep_index(with_record(creeps, name), name@)].name@ == name@,
        creep_index(creeps, name@) < creeps.len() ==> with_record(creeps, name) == creeps,
        creep_index(creeps, name@) >= creeps.len() ==> creep_index(
            with_record(creeps, name),
            name@,
        ) == creeps.len(),
{
    let entered = with_record(creeps, name);
    lemma_first_index(entry_names(creeps), name@);
    lemma_first_index(entry_names(entered), name@);
    if creep_index(creeps, name@) < creeps.len() {
        assert(entry_names(creeps)[creep_index(creeps, name@)] == name@);
    } else {
        assert(entry_names(entered) == entry_names(creeps).push(name@));
        assert forall|j: int| 0 <= j < creeps.len() implies entry_names(entered)[j] != name@ by {
            assert(entry_names(creeps)[j] != name@);
        }
        lemma_first_index_unique(entry_names(entered), name@, creeps.len() as int);
        assert(entry_names(entered)[creeps.len() as int] == name@);
    }
}

/// A record that stands in the table is found at the same place after
/// another creep was given a record.
pub proof fn lemma_record_kept(creeps: Seq<CreepEntry>, name: String, other: Seq<char>)
    requires
        creep_index(creeps, other) < creeps.len(),
    ensures
        creep_index(with_record(creeps, name), other) == creep_index(creeps, other),
        with_record(creeps, name)[creep_index(creeps, other)] == creeps[creep_index(
            creeps,
            other,
        )],
{
    lemma_first_index(entry_names(creeps), other);
    if creep_index(creeps, name@) >= creeps.len() {
        assert(entry_names(with_record(creeps, name)) == entry_names(creeps).push(name@));
        lemma_first_index_push(entry_names(creeps), other, name@);
    }
}

/// The records stand under the same names after the record of one creep
/// was changed.
pub proof fn lemma_names_kept(creeps: Seq<CreepEntry>, c: int, memory: CreepMemory)
    requires
        0 <= c < creeps.len(),
    ensures
        entry_names(creeps.update(c, CreepEntry { memory, ..creeps[c] })) == entry_names(creeps),
{
    let changed = creeps.update(c, CreepEntry { memory, ..creeps[c] });
    assert(entry_names(changed) =~= entry_names(creeps));
}

/// Makes sure that the creep of this name has a record, and finds it.
pub fn enter_creep(creeps: &mut Vec<CreepEntry>, name: &String) -> (c: usize)
    requires
        entry_names(old(creeps)@).no_duplicates(),
    ensures
        entry_names(final(creeps)@).no_duplicates(),
        final(creeps)@ == with_record(old(creeps)@, *name),
        c == creep_index(final(creeps)@, name@),
        c < final(creeps)@.len(),
{
    let c = find_creep(creeps, name);
    if c < creeps.len() {
        return c;
    }
    let ghost before = creeps@;
    creeps.push(CreepEntry { name: name.clone(), memory: CreepMemory::default() });
    proof {
        let after = creeps@;
        lemma_first_index(entry_names(before), name@);
        assert(entry_names(after) == entry_names(before).push(name@));
        assert forall|j: int| 0 <= j < c implies entry_names(after)[j] != name@ by {
            assert(entry_names(before)[j] != name@);
        }
        lemma_first_index_unique(entry_names(after), name@, c as int);
        assert forall|a: int, b: int|
            0 <= a < after.len() && 0 <= b < after.len() && a != b implies entry_names(
            after,
        )[a] != entry_names(after)[b] by {
            if a < c {
                assert(entry_names(before)[a] == entry_names(after)[a]);
            }
            if b < c {
                assert(entry_names(before)[b] == entry_names(after)[b]);
            }
        }
    }
    c
}

/// Tells whether the table has a record under `name` that is assigned to
/// `action`.
pub fn holds_task(creeps: &Vec<CreepEntry>, name: &String, action: Action) -> (held: bool)
    ensures
        held == holds(creeps@, name@, action),
{
    let i = find_creep(creeps, name);
    i < creeps.len() && creeps[i].memory.current_task == action
}

/// What the colony remembers of a room.
#[derive(Clone, Copy, Debug, PartialEq, Eq, Structural)]
pub struct RoomMemory {
    pub controller_level: usize,
}

impl Default for RoomMemory {
    fn default() -> (memory: RoomMemory)
        ensures
            memory.controller_level == 1,
    {
        RoomMemory { controller_level: 1 }
    }
}

/// What the colony remembers of a controller.
#[derive(Clone, Copy, Debug, PartialEq, Eq, Structural)]
pub struct ControllerMemory {
    pub controller_level: usize,
}

/// What the colony remembers of a structure.
#[derive(Clone, Copy, Debug, PartialEq, Eq, Structural)]
pub enum StructureMemory {
    Spawner(i32),
    Controller(ControllerMemory),
    Empty,
}

/// What is remembered of one room, under the room's packed name.
#[derive(Clone, Copy, Debug, PartialEq, Eq, Structural)]
pub struct RoomEntry {
    pub name: u16,
    pub memory: RoomMemory,
}

/// What is remembered of one structure, under the structure's id.
#[derive(Clone, Copy, Debug, PartialEq, Eq, Structural)]
pub struct StructureEntry {
    pub id: u128,
    pub memory: StructureMemory,
}

/// The task queues of one room, one queue for each kind of creep that has
/// tasks of its own.
#[derive(Clone, Debug, PartialEq, Eq)]
pub struct RoomTasks {
    /// Packed name of the room.
    pub room: u16,
    /// The tasks of the room's upgraders.
    pub upgrader: Vec<Upgrade>,
    /// The tasks of the room's harvesters.
    pub harvester: Vec<Harvest>,
}

/// The task queues of a room as the managers see them.
pub struct RoomTasksView {
    pub room: u16,
    pub upgrader: Seq<TaskView>,
    pub harvester: Seq<TaskView>,
}

/// The tasks of a queue as the managers see them.
pub open spec fn task_views<T: Task>(queue: Seq<T>) -> Seq<TaskView> {
    queue.map_values(|task: T| task_view(task))
}

/// What the workers of each task of a queue are assigned to.
pub open spec fn actions(queue: Seq<TaskView>) -> Seq<Action> {
    queue.map_values(|task: TaskView| task.action)
}

/// No target is queued twice, every task has a target, and the workers of
/// every task are within its capacity.
pub open spec fn queue_sound(queue: Seq<TaskView>) -> bool {
    &&& actions(queue).no_duplicates()
    &&& forall|i: int| 0 <= i < queue.len() ==> task_sound(#[trigger] queue[i])
}

/// Every task of the queue is well formed, and no target is queued twice.
pub open spec fn queue_wf<T: Task>(queue: Seq<T>) -> bool {
    &&& forall|i: int| 0 <= i < queue.len() ==> task_wf(#[trigger] queue[i])
    &&& actions(task_views(queue)).no_duplicates()
}

/// A well-formed queue is sound.
pub proof fn lemma_queue_wf_sound<T: Task>(queue: Seq<T>)
    requires
        queue_wf(queue),
    ensures
        queue_sound(task_views(queue)),
{
    assert forall|i: int| 0 <= i < task_views(queue).len() implies task_sound(
        #[trigger] task_views(queue)[i],
    ) by {
        assert(task_wf(queue[i]));
    }
}

/// Tells whether every task of the queue is well formed and no target is
/// queued twice.
pub fn queue_well_formed<T: Task>(queue: &Vec<T>) -> (well_formed: bool)
    ensures
        well_formed == queue_wf(queue@),
{
    let ghost acts = actions(task_views(queue@));
    let mut i: usize = 0;
    while i < queue.len()
        invariant
            i <= queue.len(),
            acts == actions(task_views(queue@)),
            forall|a: int| 0 <= a < i ==> task_wf(#[trigger] queue@[a]),
            forall|a: int, b: int| 0 <= a < b < i ==> acts[a] != acts[b],
        decreases queue.len() - i,
    {
        if !queue[i].is_well_formed() {
            assert(!task_wf(queue@[i as int]));
            return false;
        }
        let action = queue[i].get_action();
        match action {
            Action::Idle => {
                assert(!task_wf(queue@[i as int]));
                return false;
            },
            _ => {},
        }
        assert(acts[i as int] == action);
        let mut j: usize = 0;
        while j < i
            invariant
                j <= i < queue.len(),
                acts == actions(task_views(queue@)),
                acts[i as int] == action,
                forall|a: int| 0 <= a < j ==> acts[a] != action,
            decreases i - j,
        {
            if queue[j].get_action() == action {
                assert(acts[j as int] == acts[i as int]);
                return false;
            }
            j += 1;
        }
        i += 1;
    }
    assert forall|a: int, b: int|
        0 <= a < acts.len() && 0 <= b < acts.len() && a != b implies acts[a] != acts[b] by {
        if a < b {
        } else {
            assert(acts[b] != acts[a]);
        }
    }
    true
}

impl RoomTasks {
    /// Tells whether both queues are well formed.
    pub fn is_well_formed(&self) -> (well_formed: bool)
        ensures
            well_formed == self.wf(),
    {
        queue_well_formed(&self.upgrader) && queue_well_formed(&self.harvester)
    }

    /// The queues as the managers see them.
    pub open spec fn view(&self) -> RoomTasksView {
        RoomTasksView {
            room: self.room,
            upgrader: task_views(self.upgrader@),
            harvester: task_views(self.harvester@),
        }
    }

    /// Both queues are well formed.
    pub open spec fn wf(&self) -> bool {
        queue_wf(self.upgrader@) && queue_wf(self.harvester@)
    }

    /// The empty queues of a room.
    pub fn new(room: u16) -> (tasks: RoomTasks)
        ensures
            tasks.wf(),
            tasks@ == (RoomTasksView { room, upgrader: Seq::empty(), harvester: Seq::empty() }),
    {
        let tasks = RoomTasks { room, upgrader: Vec::new(), harvester: Vec::new() };
        assert(tasks@.upgrader =~= Seq::empty());
        assert(tasks@.harvester =~= Seq::empty());
        tasks
    }
}

/// The queues of all rooms as the managers see them.
pub open spec fn queue_views(queues: Seq<RoomTasks>) -> Seq<RoomTasksView> {
    queues.map_values(|tasks: RoomTasks| tasks@)
}

/// The rooms that have queues, in order.
pub open spec fn queue_rooms(queues: Seq<RoomTasksView>) -> Seq<u16> {
    queues.map_values(|tasks: RoomTasksView| tasks.room)
}

/// No room has its queues twice, and every queue is sound.
pub open spec fn queues_sound(queues: Seq<RoomTasksView>) -> bool {
    &&& queue_rooms(queues).no_duplicates()
    &&& forall|r: int|
        0 <= r < queues.len() ==> queue_sound((#[trigger] queues[r]).upgrader) && queue_sound(
            queues[r].harvester,
        )
}

/// No room has its queues twice, and the queues of every room are well
/// formed.
pub open spec fn queues_wf(queues: Seq<RoomTasks>) -> bool {
    &&& queue_rooms(queue_views(queues)).no_duplicates()
    &&& forall|r: int| 0 <= r < queues.len() ==> (#[trigger] queues[r]).wf()
}

/// Some task of the room is for `action`.
pub open spec fn room_has(tasks: RoomTasksView, action: Action) -> bool {
    actions(tasks.upgrader).contains(action) || actions(tasks.harvester).contains(action)
}

/// Some task of a room other than the room at `r` is for `action`.
pub open spec fn queued_outside(queues: Seq<RoomTasksView>, r: int, action: Action) -> bool {
    exists|q: int| 0 <= q < queues.len() && q != r && room_has(#[trigger] queues[q], action)
}

/// The tasks of the upgrade queue are for controllers, those of the
/// harvest queue for sources.
pub open spec fn kinds_fit(tasks: RoomTasksView) -> bool {
    &&& forall|t: int|
        0 <= t < tasks.upgrader.len() ==> (#[trigger] tasks.upgrader[t]).action is Upgrade
    &&& forall|t: int|
        0 <= t < tasks.harvester.len() ==> (#[trigger] tasks.harvester[t]).action is Harvest
}

/// Every queue holds tasks of its own kind, and no target is queued in two
/// rooms.
pub open spec fn targets_apart(queues: Seq<RoomTasksView>) -> bool {
    &&& forall|r: int| 0 <= r < queues.len() ==> kinds_fit(#[trigger] queues[r])
    &&& forall|p: int, q: int, action: Action|
        0 <= p < queues.len() && 0 <= q < queues.len() && p != q && #[trigger] room_has(
            queues[p],
            action,
        ) ==> !#[trigger] room_has(queues[q], action)
}

/// Queues whose tasks are for the same targets as before keep their
/// targets apart.
pub proof fn lemma_same_targets_apart(before: Seq<RoomTasksView>, after: Seq<RoomTasksView>)
    requires
        targets_apart(before),
        after.len() == before.len(),
        forall|r: int|
            0 <= r < before.len() ==> actions((#[trigger] after[r]).upgrader) == actions(
                before[r].upgrader,
            ) && actions(after[r].harvester) == actions(before[r].harvester),
    ensures
        targets_apart(after),
{
    assert forall|r: int| 0 <= r < after.len() implies kinds_fit(#[trigger] after[r]) by {
        assert(kinds_fit(before[r]));
        assert(actions(after[r].upgrader).len() == after[r].upgrader.len());
        assert(actions(before[r].upgrader).len() == before[r].upgrader.len());
        assert(actions(after[r].harvester).len() == after[r].harvester.len());
        assert(actions(before[r].harvester).len() == before[r].harvester.len());
        assert forall|t: int| 0 <= t < after[r].upgrader.len() implies (
        #[trigger] after[r].upgrader[t]).action is Upgrade by {
            assert(actions(after[r].upgrader)[t] == actions(before[r].upgrader)[t]);
            assert(before[r].upgrader[t].action is Upgrade);
        }
        assert forall|t: int| 0 <= t < after[r].harvester.len() implies (
        #[trigger] after[r].harvester[t]).action is Harvest by {
            assert(actions(after[r].harvester)[t] == actions(before[r].harvester)[t]);
            assert(before[r].harvester[t].action is Harvest);
        }
    }
    assert forall|p: int, q: int, action: Action|
        0 <= p < after.len() && 0 <= q < after.len() && p != q && #[trigger] room_has(
            after[p],
            action,
        ) implies !#[trigger] room_has(after[q], action) by {
        assert(room_has(before[p], action));
        assert(room_has(after[q], action) == room_has(before[q], action));
    }
}

/// Queues keep their targets apart when one room's queues change and every
/// target that the room has newly queued is queued in no other room.
pub proof fn lemma_changed_room_apart(
    before: Seq<RoomTasksView>,
    after: Seq<RoomTasksView>,
    r: int,
)
    requires
        targets_apart(before),
        0 <= r < before.len(),
        after.len() == before.len(),
        forall|q: int| 0 <= q < before.len() && q != r ==> #[trigger] after[q] == before[q],
        kinds_fit(after[r]),
        forall|action: Action| #[trigger]
            room_has(after[r], action) ==> room_has(before[r], action) || !queued_outside(
                before,
                r,
                action,
            ),
    ensures
        targets_apart(after),
{
    assert forall|q: int| 0 <= q < after.len() implies kinds_fit(#[trigger] after[q]) by {
        if q != r {
            assert(kinds_fit(before[q]));
        }
    }
    assert forall|p: int, q: int, action: Action|
        0 <= p < after.len() && 0 <= q < after.len() && p != q && #[trigger] room_has(
            after[p],
            action,
        ) implies !#[trigger] room_has(after[q], action) by {
        if room_has(after[q], action) {
            if p == r {
                assert(room_has(before[q], action));
                assert(queued_outside(before, r, action));
                assert(room_has(before[r], action));
            } else if q == r {
                assert(room_has(before[p], action));
                assert(queued_outside(before, r, action));
                assert(room_has(before[r], action));
            } else {
                assert(room_has(before[p], action));
                assert(room_has(before[q], action));
            }
        }
    }
}

/// Queues keep their targets apart when a room without any task is added.
pub proof fn lemma_empty_room_apart(queues: Seq<RoomTasksView>, room: u16)
    requires
        targets_apart(queues),
    ensures
        targets_apart(
            queues.push(RoomTasksView { room, upgrader: Seq::empty(), harvester: Seq::empty() }),
        ),
{
    let empty = RoomTasksView { room, upgrader: Seq::empty(), harvester: Seq::empty() };
    let after = queues.push(empty);
    assert forall|action: Action| !room_has(empty, action) by {
        assert(actions(empty.upgrader).len() == 0);
        assert(actions(empty.harvester).len() == 0);
    }
    assert forall|r: int| 0 <= r < after.len() implies kinds_fit(#[trigger] after[r]) by {
        if r < queues.len() {
            assert(kinds_fit(queues[r]));
        }
    }
    assert forall|p: int, q: int, action: Action|
        0 <= p < after.len() && 0 <= q < after.len() && p != q && #[trigger] room_has(
            after[p],
            action,
        ) implies !#[trigger] room_has(after[q], action) by {
        if p < queues.len() && q < queues.len() {
            assert(room_has(queues[p], action));
            if room_has(after[q], action) {
                assert(room_has(queues[q], action));
            }
        }
    }
}

/// Tells whether a task of the queue is for `action`.
pub fn queue_has<T: Task>(queue: &Vec<T>, action: Action) -> (found: bool)
    ensures
        found == actions(task_views(queue@)).contains(action),
{
    let mut t: usize = 0;
    while t < queue.len()
        invariant
            t <= queue.len(),
            forall|j: int| 0 <= j < t ==> actions(task_views(queue@))[j] != action,
        decreases queue.len() - t,
    {
        if queue[t].get_action() == action {
            assert(actions(task_views(queue@))[t as int] == action);
            return true;
        }
        t += 1;
    }
    false
}

/// Tells whether a task of a room other than the room at `r` is for
/// `action`.
pub fn is_queued_outside(queues: &Vec<RoomTasks>, r: usize, action: Action) -> (found: bool)
    ensures
        found == queued_outside(queue_views(queues@), r as int, action),
{
    let mut q: usize = 0;
    while q < queues.len()
        invariant
            q <= queues.len(),
            forall|j: int|
                0 <= j < q && j != r ==> !room_has(#[trigger] queue_views(queues@)[j], action),
        decreases queues.len() - q,
    {
        assert(queue_views(queues@)[q as int] == queues@[q as int]@);
        if q != r && (queue_has(&queues[q].upgrader, action) || queue_has(
            &queues[q].harvester,
            action,
        )) {
            return true;
        }
        q += 1;
    }
    false
}

/// Tells whether no target of the queue is queued in another room.
fn queue_stands_apart<T: Task>(queues: &Vec<RoomTasks>, r: usize, queue: &Vec<T>) -> (apart: bool)
    ensures
        apart == forall|t: int|
            0 <= t < queue@.len() ==> !queued_outside(
                queue_views(queues@),
                r as int,
                #[trigger] actions(task_views(queue@))[t],
            ),
{
    let mut t: usize = 0;
    while t < queue.len()
        invariant
            t <= queue.len(),
            forall|j: int|
                0 <= j < t ==> !queued_outside(
                    queue_views(queues@),
                    r as int,
                    #[trigger] actions(task_views(queue@))[j],
                ),
        decreases queue.len() - t,
    {
        let action = queue[t].get_action();
        assert(actions(task_views(queue@))[t as int] == action);
        if is_queued_outside(queues, r, action) {
            return false;
        }
        t += 1;
    }
    true
}

/// The queues of well-formed rooms hold tasks of their own kind.
pub proof fn lemma_wf_kinds_fit(tasks: RoomTasks)
    requires
        tasks.wf(),
    ensures
        kinds_fit(tasks@),
{
    assert forall|t: int| 0 <= t < tasks@.upgrader.len() implies (
    #[trigger] tasks@.upgrader[t]).action is Upgrade by {
        assert(task_wf(tasks.upgrader@[t]));
    }
    assert forall|t: int| 0 <= t < tasks@.harvester.len() implies (
    #[trigger] tasks@.harvester[t]).action is Harvest by {
        assert(task_wf(tasks.harvester@[t]));
    }
}

/// Tells whether no target is queued in two rooms.
fn stand_apart(queues: &Vec<RoomTasks>) -> (apart: bool)
    requires
        forall|r: int| 0 <= r < queues@.len() ==> (#[trigger] queues@[r]).wf(),
    ensures
        apart == targets_apart(queue_views(queues@)),
{
    let ghost views = queue_views(queues@);
    let mut r: usize = 0;
    while r < queues.len()
        invariant
            r <= queues.len(),
            views == queue_views(queues@),
            forall|p: int, action: Action|
                0 <= p < r && #[trigger] room_has(views[p], action) ==> !queued_outside(
                    views,
                    p,
                    action,
                ),
        decreases queues.len() - r,
    {
        assert(views[r as int] == queues@[r as int]@);
        let upgraders = queue_stands_apart(queues, r, &queues[r].upgrader);
        let harvesters = queue_stands_apart(queues, r, &queues[r].harvester);
        if !upgraders || !harvesters {
            proof {
                let acts = if !upgraders {
                    actions(views[r as int].upgrader)
                } else {
                    actions(views[r as int].harvester)
                };
                let t = choose|t: int|
                    0 <= t < acts.len() && queued_outside(views, r as int, #[trigger] acts[t]);
                let action = acts[t];
                assert(acts.contains(action));
                assert(room_has(views[r as int], action));
                let q = choose|q: int|
                    0 <= q < views.len() && q != r && room_has(#[trigger] views[q], action);
                assert(!targets_apart(views));
            }
            return false;
        }
        proof {
            assert forall|action: Action| #[trigger]
                room_has(views[r as int], action) implies !queued_outside(
                views,
                r as int,
                action,
            ) by {
                if actions(views[r as int].upgrader).contains(action) {
                    let t = choose|t: int|
                        0 <= t < actions(views[r as int].upgrader).len() && actions(
                            views[r as int].upgrader,
                        )[t] == action;
                    assert(!queued_outside(
                        views,
                        r as int,
                        actions(task_views(queues@[r as int].upgrader@))[t],
                    ));
                } else {
                    let t = choose|t: int|
                        0 <= t < actions(views[r as int].harvester).len() && actions(
                            views[r as int].harvester,
                        )[t] == action;
                    assert(!queued_outside(
                        views,
                        r as int,
                        actions(task_views(queues@[r as int].harvester@))[t],
                    ));
                }
            }
        }
        r += 1;
    }
    proof {
        assert forall|q: int| 0 <= q < views.len() implies kinds_fit(#[trigger] views[q]) by {
            lemma_wf_kinds_fit(queues@[q]);
        }
        assert forall|p: int, q: int, action: Action|
            0 <= p < views.len() && 0 <= q < views.len() && p != q && #[trigger] room_has(
                views[p],
                action,
            ) implies !#[trigger] room_has(views[q], action) by {
            assert(!queued_outside(views, p, action));
        }
    }
    true
}

/// Finds the queues of a room; the number of rooms with queues where the
/// room has none.
pub fn find_room_tasks(queues: &Vec<RoomTasks>, room: u16) -> (index: usize)
    ensures
        index == first_index(queue_rooms(queue_views(queues@)), room),
        index <= queues.len(),
        index < queues.len() ==> queues@[index as int].room == room,
{
    let mut i: usize = 0;
    while i < queues.len()
        invariant
            i <= queues.len(),
            forall|j: int| 0 <= j < i ==> queue_rooms(queue_views(queues@))[j] != room,
        decreases queues.len() - i,
    {
        if queues[i].room == room {
            proof {
                assert(queue_rooms(queue_views(queues@))[i as int] == room);
                lemma_first_index_unique(queue_rooms(queue_views(queues@)), room, i as int);
            }
            return i;
        }
        i += 1;
    }
    proof {
        lemma_first_index_unique(queue_rooms(queue_views(queues@)), room, i as int);
    }
    i
}

/// All that the colony keeps from one tick to the next.
#[derive(Clone, Debug, PartialEq, Eq)]
pub struct GameMemory {
    /// The tick at which the managers ran last.
    pub last_managers_tick: u32,
    /// The managers have to run at the next tick, whenever they ran last.
    pub needs_rebuild: bool,
    /// The records of the creeps, each under its creep's name.
    pub creeps: Vec<CreepEntry>,
    pub rooms: Vec<RoomEntry>,
    pub structure_memories: Vec<StructureEntry>,
    /// The task queues, room by room.
    pub room_task_queues: Vec<RoomTasks>,
}

impl GameMemory {
    /// No creep has two records, no room has its queues twice, every queue
    /// is well formed, and no target is queued in two rooms.
    pub open spec fn wf(&self) -> bool {
        &&& entry_names(self.creeps@).no_duplicates()
        &&& queues_wf(self.room_task_queues@)
        &&& targets_apart(queue_views(self.room_task_queues@))
    }

    /// Tells whether the memory is well formed.
    pub fn is_well_formed(&self) -> (well_formed: bool)
        ensures
            well_formed == self.wf(),
    {
        let ghost ids = entry_names(self.creeps@);
        let mut i: usize = 0;
        while i < self.creeps.len()
            invariant
                i <= self.creeps.len(),
                ids == entry_names(self.creeps@),
                forall|a: int, b: int| 0 <= a < b < i ==> ids[a] != ids[b],
            decreases self.creeps.len() - i,
        {
            let mut j: usize = 0;
            while j < i
                invariant
                    j <= i < self.creeps.len(),
                    ids == entry_names(self.creeps@),
                    forall|a: int| 0 <= a < j ==> ids[a] != ids[i as int],
                decreases i - j,
            {
                if self.creeps[j].name == self.creeps[i].name {
                    assert(ids[j as int] == ids[i as int]);
                    return false;
                }
                j += 1;
            }
            i += 1;
        }
        assert forall|a: int, b: int|
            0 <= a < ids.len() && 0 <= b < ids.len() && a != b implies ids[a] != ids[b] by {
            if a < b {
            } else {
                assert(ids[b] != ids[a]);
            }
        }
        let ghost rooms = queue_rooms(queue_views(self.room_task_queues@));
        let mut r: usize = 0;
        while r < self.room_task_queues.len()
            invariant
                r <= self.room_task_queues.len(),
                rooms == queue_rooms(queue_views(self.room_task_queues@)),
                ids.no_duplicates(),
                ids == entry_names(self.creeps@),
                forall|a: int| 0 <= a < r ==> (#[trigger] self.room_task_queues@[a]).wf(),
                forall|a: int, b: int| 0 <= a < b < r ==> rooms[a] != rooms[b],
            decreases self.room_task_queues.len() - r,
        {
            if !self.room_task_queues[r].is_well_formed() {
                return false;
            }
            let mut q: usize = 0;
            while q < r
                invariant
                    q <= r < self.room_task_queues.len(),
                    rooms == queue_rooms(queue_views(self.room_task_queues@)),
                    forall|a: int| 0 <= a < q ==> rooms[a] != rooms[r as int],
                decreases r - q,
            {
                if self.room_task_queues[q].room == self.room_task_queues[r].room {
                    assert(rooms[q as int] == rooms[r as int]);
                    return false;
                }
                q += 1;
            }
            r += 1;
        }
        assert forall|a: int, b: int|
            0 <= a < rooms.len() && 0 <= b < rooms.len() && a != b implies rooms[a]
            != rooms[b] by {
            if a < b {
            } else {
                assert(rooms[b] != rooms[a]);
            }
        }
        stand_apart(&self.room_task_queues)
    }

    /// The memory of a colony that starts from nothing: no creep, no room,
    /// no task, and the managers due at once.
    pub fn default() -> (memory: GameMemory)
        ensures
            memory.wf(),
            memory.needs_rebuild,
            memory.last_managers_tick == 0,
            memory.creeps@.len() == 0,
            memory.rooms@.len() == 0,
            memory.structure_memories@.len() == 0,
            memory.room_task_queues@.len() == 0,
    {
        GameMemory {
            needs_rebuild: true,
            last_managers_tick: 0,
            creeps: Vec::new(),
            rooms: Vec::new(),
            structure_memories: Vec::new(),
            room_task_queues: Vec::new(),
        }
    }
}

/// The queues of a well-formed memory are sound: in particular, the workers
/// of every task are within its capacity.
pub proof fn lemma_wf_queues_sound(memory: GameMemory)
    requires
        memory.wf(),
    ensures
        queues_sound(queue_views(memory.room_task_queues@)),
{
    let queues = memory.room_task_queues@;
    assert forall|r: int| 0 <= r < queue_views(queues).len() implies queue_sound(
        (#[trigger] queue_views(queues)[r]).upgrader,
    ) && queue_sound(queue_views(queues)[r].harvester) by {
        assert(queues[r].wf());
        lemma_queue_wf_sound(queues[r].upgrader@);
        lemma_queue_wf_sound(queues[r].harvester@);
    }
}

} // verus!
