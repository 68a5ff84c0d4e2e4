//! What a scan of the rooms makes of the task queues.

use vstd::prelude::*;
use crate::mem::actions;
use crate::mem::queue_rooms;
use crate::mem::queue_wf;
use crate::mem::queued_outside;
use crate::mem::room_has;
use crate::mem::RoomTasksView;
use crate::mem::task_views;
use crate::minion::MinionType;
use crate::room::RoomRectangle;
use crate::task::Action;
use crate::task::harvest::Harvest;
use crate::task::Task;
use crate::task::task_view;
use crate::task::task_wf;
use crate::task::TaskView;
use crate::task::upgrade::Upgrade;
use crate::util::position::open_around;
use crate::util::search::first_index;
use crate::util::search::lemma_first_index_unique;
use crate::world::Room;
use crate::world::room_names;
use crate::world::Source;
use crate::world::source_ids;

verus! {

/// A task that nobody works on yet.
pub open spec fn fresh_task(action: Action, capacity: nat) -> TaskView {
    TaskView { action, capacity, workers: Seq::empty() }
}

/// Number of creeps that can stand around a source.
pub open spec fn source_capacity(terrain: RoomRectangle, source: Source) -> int {
    open_around(terrain, source.pos.x as int, source.pos.y as int)
}

/// Number of creeps that can stand around all the sources together.
pub open spec fn total_capacity(terrain: RoomRectangle, sources: Seq<Source>) -> int
    decreases sources.len(),
{
    if sources.len() == 0 {
        0
    } else {
        total_capacity(terrain, sources.drop_last()) + source_capacity(terrain, sources.last())
    }
}

/// A queue of harvest tasks of this length can be what a scan of the room
/// left behind: it has no more tasks than the room has sources, and no more
/// tasks than creeps can stand around the sources.
pub open spec fn harvest_queue_consistent(length: nat, room: Room) -> bool {
    length <= room.sources@.len() && length <= total_capacity(room.terrain, room.sources@)
}

/// A queue of upgrade tasks of this length can be what a scan of the room
/// left behind: it has no more tasks than creeps may upgrade in the room.
pub open spec fn upgrade_queue_consistent(length: nat, room: Room) -> bool {
    length <= (if room.controller is Some {
        4nat
    } else {
        0nat
    })
}

/// The harvest queue of the room at `r` with a task added, in order, for
/// each source that creeps can stand around and that is not queued yet,
/// neither in the queue nor in another room of `queues`.
pub open spec fn with_harvest_tasks(
    queue: Seq<TaskView>,
    queues: Seq<RoomTasksView>,
    r: int,
    terrain: RoomRectangle,
    sources: Seq<Source>,
) -> Seq<TaskView>
    decreases sources.len(),
{
    if sources.len() == 0 {
        queue
    } else {
        let before = with_harvest_tasks(queue, queues, r, terrain, sources.drop_last());
        let source = sources.last();
        let capacity = source_capacity(terrain, source);
        if capacity >= 1 && !actions(before).contains(Action::Harvest(source.id))
            && !queued_outside(queues, r, Action::Harvest(source.id)) {
            before.push(fresh_task(Action::Harvest(source.id), capacity as nat))
        } else {
            before
        }
    }
}

/// The harvest queue of the room at `r` after a scan: an inconsistent
/// queue is emptied first; tasks that are queued stay as they are.
pub open spec fn scanned_harvest_queue(
    queue: Seq<TaskView>,
    queues: Seq<RoomTasksView>,
    r: int,
    room: Room,
) -> Seq<TaskView> {
    with_harvest_tasks(
        if harvest_queue_consistent(queue.len(), room) {
            queue
        } else {
            Seq::empty()
        },
        queues,
        r,
        room.terrain,
        room.sources@,
    )
}

/// The upgrade queue of the room at `r` after a scan: an inconsistent
/// queue is emptied first; the room's controller gets a task unless it has
/// one, in the queue or in another room of `queues`.
pub open spec fn scanned_upgrade_queue(
    queue: Seq<TaskView>,
    queues: Seq<RoomTasksView>,
    r: int,
    room: Room,
) -> Seq<TaskView> {
    let kept = if upgrade_queue_consistent(queue.len(), room) {
        queue
    } else {
        Seq::empty()
    };
    match room.controller {
        Some(controller) => if actions(kept).contains(Action::Upgrade(controller.id))
            || queued_outside(queues, r, Action::Upgrade(controller.id)) {
            kept
        } else {
            kept.push(fresh_task(Action::Upgrade(controller.id), 4))
        },
        None => kept,
    }
}

/// The queues with empty ones added for `room` where it has none.
pub open spec fn with_room_tasks(queues: Seq<RoomTasksView>, room: u16) -> Seq<RoomTasksView> {
    if first_index(queue_rooms(queues), room) < queues.len() {
        queues
    } else {
        queues.push(RoomTasksView { room, upgrader: Seq::empty(), harvester: Seq::empty() })
    }
}

/// The queues after the room's upgrade queue was scanned.
pub open spec fn upgrade_scanned(queues: Seq<RoomTasksView>, room: Room) -> Seq<RoomTasksView> {
    let entered = with_room_tasks(queues, room.name);
    let r = first_index(queue_rooms(entered), room.name);
    entered.update(
        r,
        RoomTasksView {
            upgrader: scanned_upgrade_queue(entered[r].upgrader, entered, r, room),
            ..entered[r]
        },
    )
}

/// The queues after the room's harvest queue was scanned.
pub open spec fn harvest_scanned(queues: Seq<RoomTasksView>, room: Room) -> Seq<RoomTasksView> {
    let entered = with_room_tasks(queues, room.name);
    let r = first_index(queue_rooms(entered), room.name);
    entered.update(
        r,
        RoomTasksView {
            harvester: scanned_harvest_queue(entered[r].harvester, entered, r, room),
            ..entered[r]
        },
    )
}

/// Something that happened during a scan and that belongs in the log.
#[derive(Clone, Copy, Debug, PartialEq, Eq, Structural)]
pub enum Notice {
    /// The queue that a room holds for a kind of creep was longer than the
    /// room can have produced: it held `length` tasks, and was rebuilt.
    QueueRebuilt { room: u16, role: MinionType, length: usize },
}

/// What a scan of the room's upgrade queue has to report.
pub open spec fn upgrade_notices(queues: Seq<RoomTasksView>, room: Room) -> Seq<Notice> {
    let entered = with_room_tasks(queues, room.name);
    let queue = entered[first_index(queue_rooms(entered), room.name)].upgrader;
    if upgrade_queue_consistent(queue.len(), room) {
        Seq::empty()
    } else {
        seq![
            Notice::QueueRebuilt {
                room: room.name,
                role: MinionType::Upgrader,
                length: queue.len() as usize,
            },
        ]
    }
}

/// What a scan of the room's harvest queue has to report.
pub open spec fn harvest_notices(queues: Seq<RoomTasksView>, room: Room) -> Seq<Notice> {
    let entered = with_room_tasks(queues, room.name);
    let queue = entered[first_index(queue_rooms(entered), room.name)].harvester;
    if harvest_queue_consistent(queue.len(), room) {
        Seq::empty()
    } else {
        seq![
            Notice::QueueRebuilt {
                room: room.name,
                role: MinionType::Harvester,
                length: queue.len() as usize,
            },
        ]
    }
}

/// What a scan of one room has to report: what there is about its upgrade
/// queue, then what there is about its harvest queue.
pub open spec fn room_notices(queues: Seq<RoomTasksView>, room: Room) -> Seq<Notice> {
    upgrade_notices(queues, room) + harvest_notices(upgrade_scanned(queues, room), room)
}

/// What a scan of the rooms has to report, room by room.
pub open spec fn scan_notices(queues: Seq<RoomTasksView>, rooms: Seq<Room>) -> Seq<Notice>
    decreases rooms.len(),
{
    if rooms.len() == 0 {
        Seq::empty()
    } else {
        scan_notices(queues, rooms.drop_last()) + room_notices(
            scanned(queues, rooms.drop_last()),
            rooms.last(),
        )
    }
}

/// The queues after a scan of one room: first its upgrade queue, then its
/// harvest queue.
pub open spec fn scanned_room(queues: Seq<RoomTasksView>, room: Room) -> Seq<RoomTasksView> {
    harvest_scanned(upgrade_scanned(queues, room), room)
}

/// The queues after a scan of the rooms, one after the other.
pub open spec fn scanned(queues: Seq<RoomTasksView>, rooms: Seq<Room>) -> Seq<RoomTasksView>
    decreases rooms.len(),
{
    if rooms.len() == 0 {
        queues
    } else {
        scanned_room(scanned(queues, rooms.drop_last()), rooms.last())
    }
}

/// Adding the tasks of the sources makes the queue longer by no more than
/// the number of sources, and by no more than the creeps that can stand
/// around them.
pub proof fn lemma_harvest_tasks_added(
    queue: Seq<TaskView>,
    queues: Seq<RoomTasksView>,
    r: int,
    terrain: RoomRectangle,
    sources: Seq<Source>,
)
    ensures
        queue.len() <= with_harvest_tasks(queue, queues, r, terrain, sources).len() <= queue.len()
            + sources.len(),
        with_harvest_tasks(queue, queues, r, terrain, sources).len() <= queue.len()
            + total_capacity(terrain, sources),
    decreases sources.len(),
{
    if sources.len() > 0 {
        lemma_harvest_tasks_added(queue, queues, r, terrain, sources.drop_last());
        lemma_total_capacity_bounds(terrain, sources.drop_last());
    }
}

/// The task that a scan queues for a source: for as many workers as can
/// stand around the source, and with no worker yet.
pub open spec fn source_task(terrain: RoomRectangle, source: Source) -> TaskView {
    fresh_task(Action::Harvest(source.id), source_capacity(terrain, source) as nat)
}

/// Every task that the queue holds after the tasks of the sources were
/// added stood in the queue before, or is the task of one of the sources.
pub proof fn lemma_harvest_tasks_origin(
    queue: Seq<TaskView>,
    queues: Seq<RoomTasksView>,
    r: int,
    terrain: RoomRectangle,
    sources: Seq<Source>,
    t: int,
)
    requires
        0 <= t < with_harvest_tasks(queue, queues, r, terrain, sources).len(),
    ensures
        t < queue.len() && with_harvest_tasks(queue, queues, r, terrain, sources)[t] == queue[t]
            || exists|i: int|
            0 <= i < sources.len() && with_harvest_tasks(queue, queues, r, terrain, sources)[t]
                == source_task(terrain, #[trigger] sources[i]),
    decreases sources.len(),
{
    if sources.len() > 0 {
        let front = sources.drop_last();
        let before = with_harvest_tasks(queue, queues, r, terrain, front);
        lemma_harvest_tasks_added(queue, queues, r, terrain, front);
        if t < before.len() {
            lemma_harvest_tasks_origin(queue, queues, r, terrain, front, t);
            if !(t < queue.len() && before[t] == queue[t]) {
                let i = choose|i: int|
                    0 <= i < front.len() && before[t] == source_task(terrain, #[trigger] front[i]);
                assert(sources[i] == front[i]);
            }
        } else {
            assert(with_harvest_tasks(queue, queues, r, terrain, sources)[t] == source_task(
                terrain,
                sources[sources.len() - 1],
            ));
        }
    }
}

/// A source that creeps can stand around, and that no queue holds a task
/// for yet, has its task in the room's queue after the scan: for as many
/// workers as can stand around it, and with no worker.
pub proof fn lemma_source_gets_task(
    queue: Seq<TaskView>,
    queues: Seq<RoomTasksView>,
    r: int,
    terrain: RoomRectangle,
    sources: Seq<Source>,
    i: int,
)
    requires
        0 <= i < sources.len(),
        source_capacity(terrain, sources[i]) >= 1,
        !actions(queue).contains(Action::Harvest(sources[i].id)),
        !queued_outside(queues, r, Action::Harvest(sources[i].id)),
        forall|j: int| 0 <= j < i ==> (#[trigger] sources[j]).id != sources[i].id,
    ensures
        with_harvest_tasks(queue, queues, r, terrain, sources).contains(
            source_task(terrain, sources[i]),
        ),
    decreases sources.len(),
{
    let front = sources.drop_last();
    let before = with_harvest_tasks(queue, queues, r, terrain, front);
    let after = with_harvest_tasks(queue, queues, r, terrain, sources);
    let wanted = source_task(terrain, sources[i]);
    if i == sources.len() - 1 {
        if actions(before).contains(Action::Harvest(sources[i].id)) {
            let t = choose|t: int|
                0 <= t < actions(before).len() && actions(before)[t] == Action::Harvest(
                    sources[i].id,
                );
            lemma_harvest_tasks_origin(queue, queues, r, terrain, front, t);
            if t < queue.len() && before[t] == queue[t] {
                assert(actions(queue)[t] == Action::Harvest(sources[i].id));
            } else {
                let j = choose|j: int|
                    0 <= j < front.len() && before[t] == source_task(terrain, #[trigger] front[j]);
                assert(sources[j] == front[j]);
            }
        }
        assert(after == before.push(wanted));
        assert(after[before.len() as int] == wanted);
    } else {
        assert(front[i] == sources[i]);
        assert forall|j: int| 0 <= j < i implies (#[trigger] front[j]).id != front[i].id by {
            assert(sources[j] == front[j]);
        }
        lemma_source_gets_task(queue, queues, r, terrain, front, i);
        let t = choose|t: int| 0 <= t < before.len() && before[t] == wanted;
        assert(after[t] == wanted);
    }
}

/// A room with a single source that creeps can stand around, whose harvest
/// queue is empty and whose source no other room has queued, holds exactly
/// the task of that source after the scan.
pub proof fn lemma_single_source_scanned(queues: Seq<RoomTasksView>, r: int, room: Room)
    requires
        room.sources@.len() == 1,
        source_capacity(room.terrain, room.sources@[0]) >= 1,
        !queued_outside(queues, r, Action::Harvest(room.sources@[0].id)),
    ensures
        scanned_harvest_queue(Seq::empty(), queues, r, room) == seq![
            source_task(room.terrain, room.sources@[0]),
        ],
{
    let sources = room.sources@;
    assert(sources.drop_last().len() == 0);
    assert(with_harvest_tasks(Seq::empty(), queues, r, room.terrain, sources.drop_last())
        == Seq::<TaskView>::empty());
    assert(actions(Seq::<TaskView>::empty()).len() == 0);
    assert(sources.last() == sources[0]);
    assert(scanned_harvest_queue(Seq::empty(), queues, r, room) =~= seq![
        source_task(room.terrain, room.sources@[0]),
    ]);
}

/// The room has something that a task for `action` is about: its
/// controller, or one of its sources.
pub open spec fn room_offers(room: Room, action: Action) -> bool {
    ||| room.controller matches Some(controller) && action == Action::Upgrade(controller.id)
    ||| exists|j: int|
        0 <= j < room.sources@.len() && action == Action::Harvest(
            (#[trigger] room.sources@[j]).id,
        )
}

/// No room of the world is listed twice, no room lists a source twice, and
/// no controller or source stands in two rooms.
pub open spec fn world_apart(rooms: Seq<Room>) -> bool {
    &&& room_names(rooms).no_duplicates()
    &&& forall|i: int|
        0 <= i < rooms.len() ==> source_ids((#[trigger] rooms[i]).sources@).no_duplicates()
    &&& forall|p: int, q: int, action: Action|
        0 <= p < rooms.len() && 0 <= q < rooms.len() && p != q && #[trigger] room_offers(
            rooms[p],
            action,
        ) ==> !#[trigger] room_offers(rooms[q], action)
}

/// The queues are what a scan makes of a room that had none: a task for
/// four upgraders where the room has a controller, the task of every
/// source that creeps can stand around, and nothing else.
pub open spec fn freshly_scanned(tasks: RoomTasksView, room: Room) -> bool {
    &&& tasks.room == room.name
    &&& tasks.upgrader == match room.controller {
        Some(controller) => seq![fresh_task(Action::Upgrade(controller.id), 4)],
        None => Seq::empty(),
    }
    &&& forall|j: int|
        0 <= j < room.sources@.len() && source_capacity(room.terrain, room.sources@[j]) >= 1
            ==> tasks.harvester.contains(source_task(room.terrain, #[trigger] room.sources@[j]))
    &&& forall|t: int|
        0 <= t < tasks.harvester.len() ==> exists|j: int|
            0 <= j < room.sources@.len() && #[trigger] tasks.harvester[t] == source_task(
                room.terrain,
                #[trigger] room.sources@[j],
            )
}

/// Queues that were freshly scanned hold tasks only for what their room
/// has.
proof fn lemma_fresh_tasks_offered(tasks: RoomTasksView, room: Room, action: Action)
    requires
        freshly_scanned(tasks, room),
        room_has(tasks, action),
    ensures
        room_offers(room, action),
{
    if actions(tasks.upgrader).contains(action) {
        let t = choose|t: int|
            0 <= t < actions(tasks.upgrader).len() && actions(tasks.upgrader)[t] == action;
        assert(tasks.upgrader[t].action == action);
    } else {
        let t = choose|t: int|
            0 <= t < actions(tasks.harvester).len() && actions(tasks.harvester)[t] == action;
        assert(tasks.harvester[t].action == action);
        let j = choose|j: int|
            0 <= j < room.sources@.len() && #[trigger] tasks.harvester[t] == source_task(
                room.terrain,
                #[trigger] room.sources@[j],
            );
        assert(action == Action::Harvest(room.sources@[j].id));
    }
}

/// A scan of a world in which nothing stands twice, starting without any
/// queue, leaves every room with freshly scanned queues, in the order of
/// the rooms.
pub proof fn lemma_fresh_scan(rooms: Seq<Room>)
    requires
        world_apart(rooms),
    ensures
        scanned(Seq::empty(), rooms).len() == rooms.len(),
        forall|i: int|
            0 <= i < rooms.len() ==> freshly_scanned(
                #[trigger] scanned(Seq::empty(), rooms)[i],
                rooms[i],
            ),
    decreases rooms.len(),
{
    if rooms.len() > 0 {
        let front = rooms.drop_last();
        let k = front.len() as int;
        let room = rooms[k];
        assert(room_names(front) == room_names(rooms).drop_last());
        assert forall|i: int| 0 <= i < front.len() implies source_ids(
            (#[trigger] front[i]).sources@,
        ).no_duplicates() by {
            assert(front[i] == rooms[i]);
        }
        assert forall|p: int, q: int, action: Action|
            0 <= p < front.len() && 0 <= q < front.len() && p != q && #[trigger] room_offers(
                front[p],
                action,
            ) implies !#[trigger] room_offers(front[q], action) by {
            assert(front[p] == rooms[p]);
            assert(front[q] == rooms[q]);
        }
        lemma_fresh_scan(front);
        let before = scanned(Seq::empty(), front);
        // The room has no queues yet: they are added at the end.
        assert forall|i: int| 0 <= i < before.len() implies queue_rooms(before)[i]
            != room.name by {
            assert(freshly_scanned(before[i], front[i]));
            assert(room_names(rooms)[i] == rooms[i].name);
            assert(room_names(rooms)[k] == room.name);
        }
        lemma_first_index_unique(queue_rooms(before), room.name, k);
        let empty = RoomTasksView { room: room.name, upgrader: Seq::empty(), harvester: Seq::empty() };
        let entered = before.push(empty);
        assert(with_room_tasks(before, room.name) == entered);
        assert(queue_rooms(entered) == queue_rooms(before).push(room.name));
        assert forall|i: int| 0 <= i < k implies queue_rooms(entered)[i] != room.name by {
            assert(queue_rooms(before)[i] != room.name);
        }
        lemma_first_index_unique(queue_rooms(entered), room.name, k);
        // Nothing that the room has is queued in a room before it.
        assert forall|action: Action, queues: Seq<RoomTasksView>|
            room_offers(room, action) && queues.len() == k + 1 && (forall|i: int|
                0 <= i < k ==> #[trigger] queues[i] == before[i]) implies !#[trigger] queued_outside(
            queues,
            k,
            action,
        ) by {
            if queued_outside(queues, k, action) {
                let q = choose|q: int|
                    0 <= q < queues.len() && q != k && room_has(#[trigger] queues[q], action);
                assert(queues[q] == before[q]);
                assert(freshly_scanned(before[q], front[q]));
                lemma_fresh_tasks_offered(before[q], front[q], action);
                assert(front[q] == rooms[q]);
                assert(room_offers(rooms[q], action));
            }
        }
        // The upgrade queue.
        let upgraded = upgrade_scanned(before, room);
        assert(actions(Seq::<TaskView>::empty()).len() == 0);
        if room.controller is Some {
            assert(room_offers(room, Action::Upgrade(room.controller->0.id)));
            assert(!queued_outside(entered, k, Action::Upgrade(room.controller->0.id)));
        }
        let upgrade_queue = scanned_upgrade_queue(Seq::empty(), entered, k, room);
        assert(upgrade_queue =~= match room.controller {
            Some(controller) => seq![fresh_task(Action::Upgrade(controller.id), 4)],
            None => Seq::empty(),
        });
        assert(upgraded == entered.update(k, RoomTasksView { upgrader: upgrade_queue, ..empty }));
        // The harvest queue.
        assert(queue_rooms(upgraded) == queue_rooms(entered));
        assert(with_room_tasks(upgraded, room.name) == upgraded);
        lemma_total_capacity_bounds(room.terrain, room.sources@);
        let harvest_queue = with_harvest_tasks(
            Seq::empty(),
            upgraded,
            k,
            room.terrain,
            room.sources@,
        );
        assert(scanned_harvest_queue(Seq::empty(), upgraded, k, room) == harvest_queue);
        let after = scanned(Seq::empty(), rooms);
        assert(after == upgraded.update(
            k,
            RoomTasksView { upgrader: upgrade_queue, harvester: harvest_queue, ..empty },
        ));
        assert forall|i: int| 0 <= i < rooms.len() implies freshly_scanned(
            #[trigger] after[i],
            rooms[i],
        ) by {
            if i < k {
                assert(after[i] == before[i]);
                assert(front[i] == rooms[i]);
            } else {
                assert forall|j: int|
                    0 <= j < room.sources@.len() && source_capacity(
                        room.terrain,
                        room.sources@[j],
                    ) >= 1 implies harvest_queue.contains(
                    source_task(room.terrain, #[trigger] room.sources@[j]),
                ) by {
                    assert(room_offers(room, Action::Harvest(room.sources@[j].id)));
                    assert(!queued_outside(upgraded, k, Action::Harvest(room.sources@[j].id)));
                    assert forall|e: int| 0 <= e < j implies (#[trigger] room.sources@[e]).id
                        != room.sources@[j].id by {
                        assert(source_ids(room.sources@)[e] != source_ids(room.sources@)[j]);
                    }
                    lemma_source_gets_task(
                        Seq::empty(),
                        upgraded,
                        k,
                        room.terrain,
                        room.sources@,
                        j,
                    );
                }
                assert forall|t: int| 0 <= t < harvest_queue.len() implies exists|j: int|
                    0 <= j < room.sources@.len() && #[trigger] harvest_queue[t] == source_task(
                        room.terrain,
                        #[trigger] room.sources@[j],
                    ) by {
                    lemma_harvest_tasks_origin(
                        Seq::empty(),
                        upgraded,
                        k,
                        room.terrain,
                        room.sources@,
                        t,
                    );
                }
            }
        }
    }
}

/// A harvest queue that a scan had to rebuild is consistent with the room
/// afterwards.
pub proof fn lemma_rebuilt_queue_consistent(
    queue: Seq<TaskView>,
    queues: Seq<RoomTasksView>,
    r: int,
    room: Room,
)
    requires
        !harvest_queue_consistent(queue.len(), room),
    ensures
        harvest_queue_consistent(scanned_harvest_queue(queue, queues, r, room).len(), room),
{
    lemma_harvest_tasks_added(Seq::empty(), queues, r, room.terrain, room.sources@);
}

/// A well-formed queue stays well formed when a well-formed task is added
/// whose target is not queued yet, and the managers see the task at the
/// end of the queue.
pub proof fn lemma_queue_push<T: Task>(queue: Seq<T>, task: T)
    requires
        queue_wf(queue),
        task_wf(task),
        !actions(task_views(queue)).contains(task.action()),
    ensures
        queue_wf(queue.push(task)),
        task_views(queue.push(task)) == task_views(queue).push(task_view(task)),
{
    let longer = queue.push(task);
    assert(task_views(longer) == task_views(queue).push(task_view(task)));
    assert forall|i: int| 0 <= i < longer.len() implies task_wf(#[trigger] longer[i]) by {
        if i < queue.len() {
            assert(task_wf(queue[i]));
        }
    }
    let acts = actions(task_views(longer));
    let olds = actions(task_views(queue));
    assert forall|a: int, b: int| 0 <= a < acts.len() && 0 <= b < acts.len() && a != b implies acts[a]
        != acts[b] by {
        if a < queue.len() {
            assert(acts[a] == olds[a]);
        }
        if b < queue.len() {
            assert(acts[b] == olds[b]);
        }
    }
}

/// Taking one source more into account adds what can stand around it.
pub proof fn lemma_total_capacity_grows(terrain: RoomRectangle, sources: Seq<Source>, n: int)
    requires
        0 < n <= sources.len(),
    ensures
        total_capacity(terrain, sources.take(n)) == total_capacity(terrain, sources.take(n - 1))
            + source_capacity(terrain, sources[n - 1]),
        total_capacity(terrain, sources.take(n)) <= total_capacity(terrain, sources),
        0 <= total_capacity(terrain, sources.take(n - 1)),
    decreases sources.len() - n,
{
    assert(sources.take(n).drop_last() == sources.take(n - 1));
    lemma_total_capacity_bounds(terrain, sources.take(n - 1));
    if n == sources.len() {
        assert(sources.take(n) == sources);
    } else {
        lemma_total_capacity_grows(terrain, sources, n + 1);
    }
}

/// Between none and eight creeps can stand around each source.
pub proof fn lemma_total_capacity_bounds(terrain: RoomRectangle, sources: Seq<Source>)
    ensures
        0 <= total_capacity(terrain, sources) <= 8 * sources.len(),
    decreases sources.len(),
{
    if sources.len() > 0 {
        lemma_total_capacity_bounds(terrain, sources.drop_last());
    }
}

} // verus!
