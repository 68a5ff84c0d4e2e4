//! Units of work that creeps are assigned to.

use vstd::prelude::*;
use crate::action::Intent;
use crate::mem::CreepEntry;
use crate::mem::CreepMemory;
use crate::mem::holds;
use crate::mem::holds_task;
use crate::minion::MinionType;
use crate::util::search::by_view;
use crate::util::search::lemma_filter_next;
use crate::util::search::lemma_names_filter;
use crate::util::search::names;
use crate::world::Creep;
use crate::world::Room;

pub mod harvest;
pub mod upgrade;

verus! {

/// Whether a task ends once it has been carried out.
#[derive(Clone, Copy, Debug, PartialEq, Eq, Structural)]
pub enum TaskStyle {
    Perpetual,
    Once,
}

/// The kind of a task, without its target.
#[derive(Clone, Copy, Debug, PartialEq, Eq, Structural)]
pub enum WorkableTask {
    Idle,
    Upgrade,
    Harvest,
    Build,
}

/// What a creep is currently assigned to, by the id of the target.
#[derive(Clone, Copy, Debug, PartialEq, Eq, Structural)]
pub enum Action {
    /// Nothing; never queued.
    Idle,
    /// Harvest the source with this id.
    Harvest(u128),
    /// Upgrade the controller with this id.
    Upgrade(u128),
    /// Bring energy to the spawn with this id.
    Deposit(u128),
}

/// The kind of creep that is built for an assignment; simple workers take
/// what needs no special build.
pub open spec fn worker_for(action: Action) -> MinionType {
    match action {
        Action::Harvest(_) => MinionType::Harvester,
        Action::Upgrade(_) => MinionType::Upgrader,
        _ => MinionType::SimpleWorker,
    }
}

/// The kind of an assignment; bringing energy in is part of harvesting.
pub open spec fn workable(action: Action) -> WorkableTask {
    match action {
        Action::Idle => WorkableTask::Idle,
        Action::Harvest(_) => WorkableTask::Harvest,
        Action::Upgrade(_) => WorkableTask::Upgrade,
        Action::Deposit(_) => WorkableTask::Harvest,
    }
}

/// The test that a name stands for a creep with a record in `creeps` that
/// is assigned to `action`.
pub open spec fn holding(creeps: Seq<CreepEntry>, action: Action) -> spec_fn(Seq<char>) -> bool {
    |name: Seq<char>| holds(creeps, name, action)
}

/// What every task carries: its target and the creeps that work on it.
#[derive(Clone, Debug, PartialEq, Eq)]
pub struct TaskProps {
    pub target: Option<u128>,
    pub style: TaskStyle,
    pub min_room_level: usize,
    /// Names of the creeps assigned to the task, in the order in which they
    /// were assigned.
    pub worked_by: Vec<String>,
}

impl Default for TaskProps {
    fn default() -> (props: TaskProps)
        ensures
            props.target is None,
            props.style == TaskStyle::Once,
            props.min_room_level == 1,
            props.worked_by@.len() == 0,
    {
        TaskProps { target: None, style: TaskStyle::Once, min_room_level: 1, worked_by: Vec::new() }
    }
}

/// Tells whether no name occurs twice in the list.
pub fn names_distinct(list: &Vec<String>) -> (distinct: bool)
    ensures
        distinct == names(list@).no_duplicates(),
{
    let mut i: usize = 0;
    while i < list.len()
        invariant
            i <= list.len(),
            forall|a: int, b: int| 0 <= a < b < i ==> names(list@)[a] != names(list@)[b],
        decreases list.len() - i,
    {
        let mut j: usize = 0;
        while j < i
            invariant
                j <= i < list.len(),
                forall|a: int| 0 <= a < j ==> names(list@)[a] != names(list@)[i as int],
            decreases i - j,
        {
            if list[j] == list[i] {
                assert(names(list@)[j as int] == names(list@)[i as int]);
                return false;
            }
            j += 1;
        }
        i += 1;
    }
    assert forall|a: int, b: int|
        0 <= a < names(list@).len() && 0 <= b < names(list@).len() && a != b implies names(
        list@,
    )[a] != names(list@)[b] by {
        if a < b {
        } else {
            assert(names(list@)[b] != names(list@)[a]);
        }
    }
    true
}

impl TaskProps {
    /// Tells whether the creep of this name works on the task.
    pub fn includes(&self, creep_name: &String) -> (included: bool)
        ensures
            included == names(self.worked_by@).contains(creep_name@),
    {
        let mut i: usize = 0;
        while i < self.worked_by.len()
            invariant
                i <= self.worked_by.len(),
                forall|j: int| 0 <= j < i ==> names(self.worked_by@)[j] != creep_name@,
            decreases self.worked_by.len() - i,
        {
            if self.worked_by[i] == *creep_name {
                assert(names(self.worked_by@)[i as int] == creep_name@);
                return true;
            }
            i += 1;
        }
        false
    }

    /// Drops every worker that has no record in `creeps` or whose record is
    /// assigned to something other than `action`. The workers that stay keep
    /// their order.
    pub fn clean_up_workers(&mut self, creeps: &Vec<CreepEntry>, action: Action)
        requires
            names(old(self).worked_by@).no_duplicates(),
        ensures
            final(self).worked_by@ == old(self).worked_by@.filter(
                by_view(holding(creeps@, action)),
            ),
            names(final(self).worked_by@) == names(old(self).worked_by@).filter(
                holding(creeps@, action),
            ),
            names(final(self).worked_by@).no_duplicates(),
            final(self).worked_by@.len() <= old(self).worked_by@.len(),
            final(self).target == old(self).target,
            final(self).style == old(self).style,
            final(self).min_room_level == old(self).min_room_level,
    {
        let ghost before = self.worked_by@;
        let ghost kept = by_view(holding(creeps@, action));
        let mut i: usize = 0;
        let ghost mut k: int = 0;
        assert(before.take(0).filter(kept) == Seq::<String>::empty()) by {
            reveal_with_fuel(Seq::filter, 1);
        }
        while i < self.worked_by.len()
            invariant
                0 <= i <= self.worked_by@.len(),
                0 <= k <= before.len(),
                before.len() - k == self.worked_by@.len() - i,
                self.worked_by@.skip(i as int) == before.skip(k),
                self.worked_by@.take(i as int) == before.take(k).filter(kept),
                names(self.worked_by@).no_duplicates(),
                kept == by_view(holding(creeps@, action)),
                self.target == old(self).target,
                self.style == old(self).style,
                self.min_room_level == old(self).min_room_level,
            decreases self.worked_by@.len() - i,
        {
            let ghost current = self.worked_by@;
            proof {
                assert(current[i as int] == current.skip(i as int)[0]);
                assert(before[k] == before.skip(k)[0]);
                lemma_filter_next(before, kept, k);
            }
            if holds_task(creeps, &self.worked_by[i], action) {
                proof {
                    assert(current.take(i as int + 1) == current.take(i as int).push(
                        current[i as int],
                    ));
                    assert(current.skip(i as int + 1) == current.skip(i as int).skip(1));
                    assert(before.skip(k + 1) == before.skip(k).skip(1));
                    k = k + 1;
                }
                i += 1;
            } else {
                self.worked_by.remove(i);
                proof {
                    let after = self.worked_by@;
                    assert(after.take(i as int) == current.take(i as int));
                    assert(after.skip(i as int) == current.skip(i as int).skip(1));
                    assert(before.skip(k + 1) == before.skip(k).skip(1));
                    assert forall|a: int, b: int|
                        0 <= a < after.len() && 0 <= b < after.len() && a != b implies names(
                        after,
                    )[a] != names(after)[b] by {
                        let a0 = if a < i { a } else { a + 1 };
                        let b0 = if b < i { b } else { b + 1 };
                        assert(names(after)[a] == names(current)[a0]);
                        assert(names(after)[b] == names(current)[b0]);
                    }
                    k = k + 1;
                }
            }
        }
        proof {
            assert(self.worked_by@.take(i as int) == self.worked_by@);
            assert(before.take(k) == before);
            before.lemma_filter_len(kept);
            lemma_names_filter(before, holding(creeps@, action));
        }
    }
}

/// A task as the managers see it: what its workers are assigned to, how
/// many of them there may be, and who they are.
pub struct TaskView {
    pub action: Action,
    pub capacity: nat,
    pub workers: Seq<Seq<char>>,
}

/// No creep works on the task twice, and no more creeps work on it than it
/// has room for.
pub open spec fn within_capacity(task: TaskView) -> bool {
    task.workers.no_duplicates() && task.workers.len() <= task.capacity
}

/// A task with these parts as the managers see it.
pub open spec fn view_of(action: Action, capacity: nat, props: TaskProps) -> TaskView {
    TaskView { action, capacity, workers: names(props.worked_by@) }
}

/// The task as the managers see it.
pub open spec fn task_view<T: Task>(task: T) -> TaskView {
    view_of(task.action(), task.capacity(), task.props())
}

/// The task has a target, and its workers are within its capacity.
pub open spec fn task_sound(task: TaskView) -> bool {
    within_capacity(task) && task.action != Action::Idle
}

/// The task is coherent, it has a target, and its workers are within its
/// capacity.
pub open spec fn task_wf<T: Task>(task: T) -> bool {
    task.coherent() && task_sound(task_view(task))
}

/// A unit of work with a target, a limit on its workers, and the workers
/// themselves.
pub trait Task: Sized {
    /// The properties the task carries.
    spec fn props(&self) -> TaskProps;

    /// Most creeps that may work on the task at once.
    spec fn capacity(&self) -> nat;

    /// What a creep that works on the task is assigned to.
    spec fn action(&self) -> Action;

    /// The task's fields agree with each other.
    spec fn coherent(&self) -> bool;

    /// What a worker of the task attempts this tick, and its record after
    /// the decision.
    spec fn plan(&self, memory: CreepMemory, creep: Creep, room: Room) -> (CreepMemory, Intent);

    /// Decides what one worker of the task attempts this tick.
    fn run(&self, creep: &Creep, room: &Room, memory: &mut CreepMemory) -> (intent: Intent)
        ensures
            (*final(memory), intent) == self.plan(*old(memory), *creep, *room),
    ;

    fn get_target(&self) -> (target: Option<u128>)
        ensures
            target == self.props().target,
    ;

    /// Points the task at another target. Its workers stay.
    fn set_target(&mut self, target: u128)
        ensures
            final(self).props() == (TaskProps { target: Some(target), ..old(self).props() }),
            final(self).capacity() == old(self).capacity(),
            old(self).coherent() ==> final(self).coherent(),
    ;

    fn get_props(&self) -> (props: &TaskProps)
        ensures
            *props == self.props(),
    ;

    /// Replaces what the task carries.
    fn set_props(&mut self, props: TaskProps)
        ensures
            final(self).props() == props,
            final(self).capacity() == old(self).capacity(),
    ;

    /// What a creep that works on the task is assigned to.
    fn get_action(&self) -> (action: Action)
        ensures
            action == self.action(),
    ;

    /// Tells whether the task is coherent and its workers are within its
    /// capacity.
    fn is_well_formed(&self) -> (well_formed: bool)
        ensures
            well_formed == (self.coherent() && within_capacity(
                view_of(self.action(), self.capacity(), self.props()),
            )),
    ;

    fn get_workable_name(&self) -> (kind: WorkableTask)
        ensures
            kind == workable(self.action()),
    ;

    /// Tells whether the task has room for another worker.
    fn needs_creeps(&self) -> (needed: bool)
        ensures
            needed == (view_of(self.action(), self.capacity(), self.props()).workers.len() < self.capacity()),
    ;

    /// The kind of creep that works on the task.
    fn needed_type(&self) -> (kind: MinionType)
        ensures
            kind == worker_for(self.action()),
    ;

    /// Tasks of the colony go on for as long as their target stands.
    fn is_finished(&self) -> (finished: bool)
        ensures
            !finished,
    ;

    /// Adds the creep to the workers of the task.
    fn assign_creep(&mut self, creep: &Creep)
        requires
            old(self).coherent() && within_capacity(view_of(old(self).action(), old(self).capacity(), old(self).props())),
            view_of(old(self).action(), old(self).capacity(), old(self).props()).workers.len() < old(self).capacity(),
            !view_of(old(self).action(), old(self).capacity(), old(self).props()).workers.contains(creep.name@),
        ensures
            final(self).coherent() && within_capacity(view_of(final(self).action(), final(self).capacity(), final(self).props())),
            view_of(final(self).action(), final(self).capacity(), final(self).props()) == (TaskView {
                workers: view_of(old(self).action(), old(self).capacity(), old(self).props()).workers.push(creep.name@),
                ..view_of(old(self).action(), old(self).capacity(), old(self).props())
            }),
    ;

    /// Drops every worker that has no record in `creeps` or whose record is
    /// assigned to something else. The workers that stay
    /// keep their order.
    fn release_workers(&mut self, creeps: &Vec<CreepEntry>)
        requires
            old(self).coherent() && within_capacity(view_of(old(self).action(), old(self).capacity(), old(self).props())),
        ensures
            final(self).coherent() && within_capacity(view_of(final(self).action(), final(self).capacity(), final(self).props())),
            view_of(final(self).action(), final(self).capacity(), final(self).props()) == (TaskView {
                workers: view_of(old(self).action(), old(self).capacity(), old(self).props()).workers.filter(
                    holding(creeps@, old(self).action()),
                ),
                ..view_of(old(self).action(), old(self).capacity(), old(self).props())
            }),
    ;
}

} // verus!
