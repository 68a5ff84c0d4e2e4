//! Deciding which creeps the spawns produce.

use vstd::prelude::*;
use crate::action::ReturnCode;
use crate::mem::creep_index;
use crate::mem::CreepEntry;
use crate::mem::CreepMemory;
use crate::mem::entry_names;
use crate::mem::find_creep;
use crate::mem::find_room_tasks;
use crate::mem::GameMemory;
use crate::mem::queue_rooms;
use crate::mem::queue_views;
use crate::mem::RoomTasks;
use crate::mem::RoomTasksView;
use crate::mem::task_views;
use crate::minion::MinionType;
use crate::task::Action;
use crate::task::Task;
use crate::task::task_view;
use crate::task::TaskView;
use crate::util::search::first_index;
use crate::util::search::first_where;
use crate::util::search::lemma_first_index;
use crate::util::search::lemma_first_where_unique;
use crate::world::Room;
use crate::world::Spawn;

verus! {

/// Energy a spawn must hold in reserve before it produces a creep.
pub const SPAWN_ENERGY_THRESHOLD: u32 = 300;

/// A part of a creep's body.
#[derive(Clone, Copy, Debug, PartialEq, Eq, Structural)]
pub enum Part {
    Move,
    Work,
    Carry,
}

/// The command to produce a creep.
#[derive(Clone, Debug, PartialEq, Eq)]
pub struct SpawnOrder {
    /// The spawn that is to produce the creep.
    pub spawn_id: u128,
    pub body: Vec<Part>,
    pub name: String,
    /// The kind of creep, which its record will hold.
    pub role: MinionType,
}

/// A command to produce a creep, by what it says.
pub struct SpawnOrderView {
    pub spawn_id: u128,
    pub body: Seq<Part>,
    pub name: Seq<char>,
    pub role: MinionType,
}

impl SpawnOrder {
    pub open spec fn view(&self) -> SpawnOrderView {
        SpawnOrderView {
            spawn_id: self.spawn_id,
            body: self.body@,
            name: self.name@,
            role: self.role,
        }
    }
}

/// The character that stands for a digit.
pub open spec fn digit_char(digit: nat) -> char {
    if digit == 0 {
        '0'
    } else if digit == 1 {
        '1'
    } else if digit == 2 {
        '2'
    } else if digit == 3 {
        '3'
    } else if digit == 4 {
        '4'
    } else if digit == 5 {
        '5'
    } else if digit == 6 {
        '6'
    } else if digit == 7 {
        '7'
    } else if digit == 8 {
        '8'
    } else {
        '9'
    }
}

/// A number written in decimal digits, without leading zeros.
pub open spec fn decimal(number: nat) -> Seq<char>
    decreases number,
{
    if number < 10 {
        seq![digit_char(number)]
    } else {
        decimal(number / 10).push(digit_char(number % 10))
    }
}

/// What tells the orders of one tick apart: nothing for the first order,
/// a dash and the number of orders before it for every later one.
pub open spec fn serial_mark(serial: nat) -> Seq<char> {
    if serial == 0 {
        Seq::empty()
    } else {
        seq!['-'] + decimal(serial)
    }
}

/// The name of a creep of a kind that is ordered at a tick, after `serial`
/// other orders of that tick: the word for the kind, followed by the tick
/// and by what tells the orders of the tick apart.
pub open spec fn spawn_name(role: MinionType, tick: u32, serial: nat) -> Seq<char> {
    role.spec_label() + decimal(tick as nat) + serial_mark(serial)
}

/// A number in decimal digits has at least one digit, and at least two from
/// ten on.
pub proof fn lemma_decimal_len(number: nat)
    ensures
        decimal(number).len() >= 1,
        number >= 10 ==> decimal(number).len() >= 2,
    decreases number,
{
    if number >= 10 {
        lemma_decimal_len(number / 10);
    }
}

/// Different numbers are written differently.
pub proof fn lemma_decimal_injective(a: nat, b: nat)
    requires
        decimal(a) == decimal(b),
    ensures
        a == b,
    decreases a,
{
    lemma_decimal_len(a);
    lemma_decimal_len(b);
    if a < 10 && b < 10 {
        assert(decimal(a)[0] == digit_char(a));
        assert(decimal(b)[0] == digit_char(b));
    } else if a >= 10 && b >= 10 {
        let front_a = decimal(a / 10);
        let front_b = decimal(b / 10);
        assert(decimal(a).drop_last() == front_a);
        assert(decimal(b).drop_last() == front_b);
        lemma_decimal_injective(a / 10, b / 10);
        assert(decimal(a).last() == digit_char(a % 10));
        assert(decimal(b).last() == digit_char(b % 10));
        assert(a % 10 == b % 10);
        assert(a == 10 * (a / 10) + a % 10);
        assert(b == 10 * (b / 10) + b % 10);
    } else if a < 10 {
        assert(decimal(a).len() == 1);
    } else {
        assert(decimal(b).len() == 1);
    }
}

/// A number is written in digits only: no dash among them.
pub proof fn lemma_decimal_has_no_dash(number: nat, i: int)
    requires
        0 <= i < decimal(number).len(),
    ensures
        decimal(number)[i] != '-',
    decreases number,
{
    if number >= 10 {
        if i < decimal(number / 10).len() {
            lemma_decimal_has_no_dash(number / 10, i);
        }
    }
}

/// A tick and what tells its orders apart are written differently for
/// different ticks, and for different orders of one tick.
pub proof fn lemma_numbering_injective(tick: nat, serial: nat, later: nat, other: nat)
    requires
        decimal(tick) + serial_mark(serial) == decimal(later) + serial_mark(other),
    ensures
        tick == later,
        serial == other,
{
    let a = decimal(tick);
    let b = decimal(later);
    let ma = serial_mark(serial);
    let mb = serial_mark(other);
    let whole = a + ma;
    assert(whole.len() == a.len() + ma.len());
    assert(whole.len() == b.len() + mb.len());
    if a.len() < b.len() {
        assert(whole[a.len() as int] == ma[0]);
        assert((b + mb)[a.len() as int] == b[a.len() as int]);
        lemma_decimal_has_no_dash(later, a.len() as int);
    } else if b.len() < a.len() {
        assert((b + mb)[b.len() as int] == mb[0]);
        assert(whole[b.len() as int] == a[b.len() as int]);
        lemma_decimal_has_no_dash(tick, b.len() as int);
    } else {
        assert(whole.subrange(0, a.len() as int) == a);
        assert((b + mb).subrange(0, a.len() as int) == b);
        lemma_decimal_injective(tick, later);
        assert(whole.subrange(a.len() as int, whole.len() as int) == ma);
        assert((b + mb).subrange(a.len() as int, whole.len() as int) == mb);
        if serial != 0 && other != 0 {
            assert(ma.subrange(1, ma.len() as int) == decimal(serial));
            assert(mb.subrange(1, mb.len() as int) == decimal(other));
            lemma_decimal_injective(serial, other);
        }
    }
}

/// Creeps of different kinds, or ordered at different ticks, or ordered one
/// after the other at one tick, are ordered under different names.
pub proof fn lemma_spawn_names_differ(
    role: MinionType,
    tick: u32,
    serial: nat,
    other: MinionType,
    later: u32,
    next: nat,
)
    requires
        role != other || tick != later || serial != next,
    ensures
        spawn_name(role, tick, serial) != spawn_name(other, later, next),
{
    reveal_strlit("Worker");
    reveal_strlit("Upgrader");
    reveal_strlit("Harvester");
    let first = spawn_name(role, tick, serial);
    let second = spawn_name(other, later, next);
    if role != other {
        assert(first[0] == role.spec_label()[0]);
        assert(second[0] == other.spec_label()[0]);
    } else {
        let label = role.spec_label();
        if first == second {
            assert(first.subrange(label.len() as int, first.len() as int) == decimal(tick as nat)
                + serial_mark(serial));
            assert(second.subrange(label.len() as int, second.len() as int) == decimal(
                later as nat,
            ) + serial_mark(next));
            lemma_numbering_injective(tick as nat, serial, later as nat, next);
        }
    }
}

/// The body every creep is produced with: one part to move, one to carry,
/// one to work.
pub open spec fn spawn_body() -> Seq<Part> {
    seq![Part::Move, Part::Carry, Part::Work]
}

/// The spawn is free, and holds the reserve it needs to produce a creep.
pub open spec fn can_spawn(spawner: Spawn) -> bool {
    !spawner.busy && spawner.energy >= SPAWN_ENERGY_THRESHOLD
}

/// The test that a task has room for another worker.
pub open spec fn wanting() -> spec_fn(TaskView) -> bool {
    |task: TaskView| task.workers.len() < task.capacity
}

/// The kind of creep that a room needs next: a harvester where a harvest
/// task has room for another worker, else an upgrader where an upgrade task
/// has, else none.
pub open spec fn demanded_role(tasks: RoomTasksView) -> Option<MinionType> {
    if first_where(tasks.harvester, wanting()) < tasks.harvester.len() {
        Some(MinionType::Harvester)
    } else if first_where(tasks.upgrader, wanting()) < tasks.upgrader.len() {
        Some(MinionType::Upgrader)
    } else {
        None
    }
}

/// What a spawn is ordered to produce at a tick, after `serial` other
/// orders of that tick, given the queues of its room: nothing unless it can
/// spawn and the room needs a creep.
pub open spec fn order_for(spawner: Spawn, tasks: RoomTasksView, tick: u32, serial: nat) -> Option<
    SpawnOrderView,
> {
    if can_spawn(spawner) {
        match demanded_role(tasks) {
            Some(role) => Some(
                SpawnOrderView {
                    spawn_id: spawner.id,
                    body: spawn_body(),
                    name: spawn_name(role, tick, serial),
                    role,
                },
            ),
            None => None,
        }
    } else {
        None
    }
}

/// A spawn that is busy, or holds less than the reserve, is ordered nothing,
/// whatever the queues of its room need.
pub proof fn lemma_no_order_without_reserve(
    spawner: Spawn,
    tasks: RoomTasksView,
    tick: u32,
    serial: nat,
)
    requires
        spawner.busy || spawner.energy < SPAWN_ENERGY_THRESHOLD,
    ensures
        order_for(spawner, tasks, tick, serial) is None,
{
}

/// What one spawn is ordered to produce, given the queues of all rooms: a
/// spawn in a room without queues is ordered nothing.
pub open spec fn order_of(
    spawner: Spawn,
    queues: Seq<RoomTasksView>,
    tick: u32,
    serial: nat,
) -> Option<SpawnOrderView> {
    let r = first_index(queue_rooms(queues), spawner.pos.room);
    if r < queues.len() {
        order_for(spawner, queues[r], tick, serial)
    } else {
        None
    }
}

/// The orders for the spawns, in the order of the spawns. Each order is
/// numbered by the orders of the tick that stand before it.
pub open spec fn orders_of(spawners: Seq<Spawn>, queues: Seq<RoomTasksView>, tick: u32) -> Seq<
    SpawnOrderView,
>
    decreases spawners.len(),
{
    if spawners.len() == 0 {
        Seq::empty()
    } else {
        let before = orders_of(spawners.drop_last(), queues, tick);
        match order_of(spawners.last(), queues, tick, before.len()) {
            Some(order) => before.push(order),
            None => before,
        }
    }
}

/// Every order of a tick is named by its kind, the tick and its place among
/// the orders of the tick.
pub proof fn lemma_orders_named(
    spawners: Seq<Spawn>,
    queues: Seq<RoomTasksView>,
    tick: u32,
    k: int,
)
    requires
        0 <= k < orders_of(spawners, queues, tick).len(),
    ensures
        orders_of(spawners, queues, tick)[k].name == spawn_name(
            orders_of(spawners, queues, tick)[k].role,
            tick,
            k as nat,
        ),
    decreases spawners.len(),
{
    if spawners.len() > 0 {
        let before = orders_of(spawners.drop_last(), queues, tick);
        if k < before.len() {
            lemma_orders_named(spawners.drop_last(), queues, tick, k);
        }
    }
}

/// No two orders of a tick go by the same name.
pub proof fn lemma_orders_named_apart(
    spawners: Seq<Spawn>,
    queues: Seq<RoomTasksView>,
    tick: u32,
    j: int,
    k: int,
)
    requires
        0 <= j < k < orders_of(spawners, queues, tick).len(),
    ensures
        orders_of(spawners, queues, tick)[j].name != orders_of(spawners, queues, tick)[k].name,
{
    let orders = orders_of(spawners, queues, tick);
    lemma_orders_named(spawners, queues, tick, j);
    lemma_orders_named(spawners, queues, tick, k);
    lemma_spawn_names_differ(orders[j].role, tick, j as nat, orders[k].role, tick, k as nat);
}

/// The spawns of the rooms that have one, in the order of the rooms.
pub open spec fn spawns_of(rooms: Seq<Room>) -> Seq<Spawn>
    decreases rooms.len(),
{
    if rooms.len() == 0 {
        Seq::empty()
    } else {
        let before = spawns_of(rooms.drop_last());
        match rooms.last().spawn {
            Some(spawner) => before.push(spawner),
            None => before,
        }
    }
}

/// The record a creep of a kind starts with: no task, no step, no path.
pub open spec fn newborn(role: MinionType) -> CreepMemory {
    CreepMemory {
        worker_type: role,
        current_path: None,
        last_position: None,
        current_task: Action::Idle,
        current_task_step: None,
    }
}

/// The table after a creep was registered: its record replaces the one
/// that stood under its name, or is added at the end.
pub open spec fn registered(creeps: Seq<CreepEntry>, name: String, role: MinionType) -> Seq<
    CreepEntry,
> {
    let c = creep_index(creeps, name@);
    if c < creeps.len() {
        creeps.update(c, CreepEntry { memory: newborn(role), ..creeps[c] })
    } else {
        creeps.push(CreepEntry { name, memory: newborn(role) })
    }
}

/// The views of the orders.
pub open spec fn order_views(orders: Seq<SpawnOrder>) -> Seq<SpawnOrderView> {
    orders.map_values(|order: SpawnOrder| order@)
}

pub struct SpawnManager {
    spawners: Vec<Spawn>,
}

impl SpawnManager {
    /// The spawns the manager decides for.
    pub closed spec fn spawners(&self) -> Seq<Spawn> {
        self.spawners@
    }

    /// The manager of the spawns of these rooms.
    pub fn with_rooms(rooms: &Vec<Room>) -> (manager: SpawnManager)
        ensures
            manager.spawners() == spawns_of(rooms@),
    {
        let mut spawners: Vec<Spawn> = Vec::new();
        let mut i: usize = 0;
        assert(rooms@.take(0) == Seq::<Room>::empty());
        while i < rooms.len()
            invariant
                i <= rooms.len(),
                spawners@ == spawns_of(rooms@.take(i as int)),
            decreases rooms.len() - i,
        {
            proof {
                assert(rooms@.take(i as int + 1).drop_last() == rooms@.take(i as int));
            }
            match rooms[i].spawn {
                Some(spawner) => {
                    spawners.push(spawner);
                },
                None => {},
            }
            i += 1;
        }
        assert(rooms@.take(i as int) == rooms@);
        SpawnManager { spawners }
    }

    fn digit(digit: u32) -> (text: &'static str)
        requires
            digit < 10,
        ensures
            text@ == seq![digit_char(digit as nat)],
    {
        proof {
            reveal_strlit("0");
            reveal_strlit("1");
            reveal_strlit("2");
            reveal_strlit("3");
            reveal_strlit("4");
            reveal_strlit("5");
            reveal_strlit("6");
            reveal_strlit("7");
            reveal_strlit("8");
            reveal_strlit("9");
        }
        let text: &'static str = if digit == 0 {
            "0"
        } else if digit == 1 {
            "1"
        } else if digit == 2 {
            "2"
        } else if digit == 3 {
            "3"
        } else if digit == 4 {
            "4"
        } else if digit == 5 {
            "5"
        } else if digit == 6 {
            "6"
        } else if digit == 7 {
            "7"
        } else if digit == 8 {
            "8"
        } else {
            "9"
        };
        assert(text@ =~= seq![digit_char(digit as nat)]);
        text
    }

    /// Appends a number in decimal digits to a text.
    fn append_decimal(text: &mut String, number: u64)
        ensures
            final(text)@ == old(text)@ + decimal(number as nat),
        decreases number,
    {
        if number < 10 {
            text.append(Self::digit(number as u32));
        } else {
            Self::append_decimal(text, number / 10);
            text.append(Self::digit((number % 10) as u32));
            assert(text@ =~= old(text)@ + decimal(number as nat));
        }
    }

    /// The name under which a creep of a kind is ordered at a tick, after
    /// `serial` other orders of that tick.
    pub fn name_for(role: MinionType, tick: u32, serial: usize) -> (name: String)
        ensures
            name@ == spawn_name(role, tick, serial as nat),
    {
        let mut name = role.to_string();
        Self::append_decimal(&mut name, tick as u64);
        if serial > 0 {
            proof {
                reveal_strlit("-");
            }
            name.append("-");
            Self::append_decimal(&mut name, serial as u64);
            assert(name@ =~= spawn_name(role, tick, serial as nat));
        } else {
            assert(name@ =~= spawn_name(role, tick, serial as nat));
        }
        name
    }

    /// Finds the first task of the queue that has room for another worker;
    /// the length of the queue where none has.
    fn first_wanting<T: Task>(queue: &Vec<T>) -> (t: usize)
        ensures
            t == first_where(task_views(queue@), wanting()),
            t <= queue.len(),
    {
        let mut i: usize = 0;
        while i < queue.len()
            invariant
                i <= queue.len(),
                forall|j: int| 0 <= j < i ==> !wanting()(task_views(queue@)[j]),
            decreases queue.len() - i,
        {
            assert(task_views(queue@)[i as int] == task_view(queue@[i as int]));
            if queue[i].needs_creeps() {
                proof {
                    lemma_first_where_unique(task_views(queue@), wanting(), i as int);
                }
                return i;
            }
            i += 1;
        }
        proof {
            lemma_first_where_unique(task_views(queue@), wanting(), i as int);
        }
        i
    }

    /// Decides, for every spawn, whether it produces a creep at this tick,
    /// and returns the orders in the order of the spawns. No two orders go
    /// by the same name.
    pub fn spawn(&self, game_memory: &GameMemory, tick: u32) -> (orders: Vec<SpawnOrder>)
        ensures
            order_views(orders@) == orders_of(
                self.spawners(),
                queue_views(game_memory.room_task_queues@),
                tick,
            ),
    {
        let mut orders: Vec<SpawnOrder> = Vec::new();
        let mut i: usize = 0;
        assert(self.spawners@.take(0) == Seq::<Spawn>::empty());
        assert(order_views(orders@) =~= Seq::empty());
        while i < self.spawners.len()
            invariant
                i <= self.spawners.len(),
                order_views(orders@) == orders_of(
                    self.spawners@.take(i as int),
                    queue_views(game_memory.room_task_queues@),
                    tick,
                ),
            decreases self.spawners.len() - i,
        {
            proof {
                assert(self.spawners@.take(i as int + 1).drop_last() == self.spawners@.take(
                    i as int,
                ));
            }
            let spawner = self.spawners[i];
            let r = find_room_tasks(&game_memory.room_task_queues, spawner.pos.room);
            if r < game_memory.room_task_queues.len() {
                assert(queue_views(game_memory.room_task_queues@)[r as int]
                    == game_memory.room_task_queues@[r as int]@);
                let serial: usize = orders.len();
                assert(serial == order_views(orders@).len());
                match self.spawn_if_needed(
                    spawner,
                    &game_memory.room_task_queues[r],
                    tick,
                    serial,
                ) {
                    Some(order) => {
                        let ghost before = orders@;
                        orders.push(order);
                        assert(order_views(orders@) =~= order_views(before).push(order@));
                    },
                    None => {},
                }
            }
            i += 1;
        }
        assert(self.spawners@.take(i as int) == self.spawners@);
        orders
    }

    /// Decides whether a spawn produces a creep at this tick.
    ///
    /// A spawn that is busy, or holds less than the reserve, produces
    /// nothing. Otherwise the room's queues are gone through, harvest tasks
    /// before upgrade tasks: the first task with room for another worker
    /// decides the kind of creep, and where no task has room, nothing is
    /// produced. `serial` is the number of orders that this tick has seen
    /// already; it keeps the names of the tick's orders apart.
    pub fn spawn_if_needed(
        &self,
        spawner: Spawn,
        room_tasks: &RoomTasks,
        tick: u32,
        serial: usize,
    ) -> (order: Option<SpawnOrder>)
        ensures
            match order {
                Some(order) => order_for(spawner, room_tasks@, tick, serial as nat) == Some(
                    order@,
                ),
                None => order_for(spawner, room_tasks@, tick, serial as nat) is None,
            },
    {
        if spawner.busy || spawner.energy < SPAWN_ENERGY_THRESHOLD {
            return None;
        }
        let role: MinionType = if Self::first_wanting(&room_tasks.harvester)
            < room_tasks.harvester.len() {
            MinionType::Harvester
        } else if Self::first_wanting(&room_tasks.upgrader) < room_tasks.upgrader.len() {
            MinionType::Upgrader
        } else {
            return None;
        };
        let mut body: Vec<Part> = Vec::new();
        body.push(Part::Move);
        body.push(Part::Carry);
        body.push(Part::Work);
        assert(body@ =~= spawn_body());
        Some(SpawnOrder { spawn_id: spawner.id, body, name: Self::name_for(role, tick, serial), role })
    }

    /// Takes in the result of an order. Where the world accepted the order,
    /// the creep is registered under its name, with a record that holds its
    /// kind and nothing else; where it did not, nothing is registered.
    pub fn spawn_it(order: &SpawnOrder, result: ReturnCode, creep_memories: &mut Vec<CreepEntry>)
        requires
            entry_names(old(creep_memories)@).no_duplicates(),
        ensures
            entry_names(final(creep_memories)@).no_duplicates(),
            final(creep_memories)@ == if result == ReturnCode::Success {
                registered(old(creep_memories)@, order.name, order.role)
            } else {
                old(creep_memories)@
            },
    {
        match result {
            ReturnCode::Success => {},
            _ => {
                return;
            },
        }
        let memory = CreepMemory {
            worker_type: order.role,
            current_path: None,
            last_position: None,
            current_task: Action::Idle,
            current_task_step: None,
        };
        let ghost before = creep_memories@;
        let c = find_creep(creep_memories, &order.name);
        if c < creep_memories.len() {
            creep_memories[c].memory = memory;
            proof {
                let after = creep_memories@;
                assert(entry_names(after) == entry_names(before));
            }
        } else {
            creep_memories.push(CreepEntry { name: order.name.clone(), memory });
            proof {
                let after = creep_memories@;
                lemma_first_index(entry_names(before), order.name@);
                assert(entry_names(after) == entry_names(before).push(order.name@));
                assert forall|a: int, b: int|
                    0 <= a < after.len() && 0 <= b < after.len() && a != b implies entry_names(
                    after,
                )[a] != entry_names(after)[b] by {
                    if a < c {
                        assert(entry_names(before)[a] == entry_names(after)[a]);
                    }
                    if b < c {
                        assert(entry_names(before)[b] == entry_names(after)[b]);
                    }
                }
            }
        }
    }
}

} // verus!
