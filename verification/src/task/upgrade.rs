//! Upgrading a controller.

use vstd::prelude::*;
use crate::action::ActionStep;
use crate::action::CreepAction;
use crate::action::Intent;
use crate::action::upgrade_plan;
use crate::mem::CreepEntry;
use crate::mem::CreepMemory;
use crate::minion::MinionType;
use crate::task::Action;
use crate::task::names_distinct;
use crate::task::Task;
use crate::task::task_wf;
use crate::task::TaskProps;
use crate::task::TaskStyle;
use crate::task::WorkableTask;
use crate::util::search::names;
use crate::world::Controller;
use crate::world::Creep;
use crate::world::Room;

verus! {

/// Most creeps that upgrade one controller at a time.
pub const UPGRADE_CAPACITY: usize = 4;

/// The task of upgrading the controller of a room.
#[derive(Clone, Debug, PartialEq, Eq)]
pub struct Upgrade {
    pub props: TaskProps,
    pub is_harvesting: bool,
}

impl Upgrade {
    /// The controller the task is about, as `room` holds it: the one the
    /// task names, or the room's own where the task names none.
    pub fn resolve(&self, room: &Room) -> (controller: Option<Controller>)
        ensures
            controller == match self.props.target {
                Some(id) => room.controller_with(id),
                None => room.controller,
            },
    {
        match self.props.target {
            Some(id) => room.controller_with(id),
            None => room.controller,
        }
    }

    /// The id of the controller a worker of the task upgrades in `room`:
    /// the one the task names, or the room's own where the task names
    /// none. A room without controller holds no controller of any id.
    pub open spec fn controller_id(&self, room: Room) -> u128 {
        match self.props.target {
            Some(id) => id,
            None => match room.controller {
                Some(controller) => controller.id,
                None => 0,
            },
        }
    }

    /// The task of upgrading the controller of `room`, with no worker yet.
    pub fn for_room(room: &Room) -> (task: Upgrade)
        requires
            room.controller is Some,
        ensures
            task_wf(task),
            task.props.target == Some(room.controller->0.id),
            task.props.worked_by@.len() == 0,
    {
        let target: Option<u128> = match room.controller {
            Some(controller) => Some(controller.id),
            None => None,
        };
        let task = Upgrade {
            props: TaskProps {
                target,
                style: TaskStyle::Perpetual,
                min_room_level: 1,
                worked_by: Vec::new(),
            },
            is_harvesting: false,
        };
        assert(names(task.props.worked_by@) == Seq::<Seq<char>>::empty());
        task
    }
}

/// A worker of an upgrade task that is upgrading and carries nothing is
/// harvesting after the decision and attempts nothing, whatever the task
/// names and whatever the room holds.
pub proof fn lemma_empty_worker_harvests(
    task: Upgrade,
    memory: CreepMemory,
    creep: Creep,
    room: Room,
)
    requires
        memory.current_task_step == Some(ActionStep::Upgrading),
        creep.used_capacity == 0,
    ensures
        task.plan(memory, creep, room).0.current_task_step == Some(ActionStep::Harvesting),
        task.plan(memory, creep, room).1 == Intent::Rest,
{
}

impl Task for Upgrade {
    open spec fn props(&self) -> TaskProps {
        self.props
    }

    open spec fn capacity(&self) -> nat {
        4
    }

    open spec fn action(&self) -> Action {
        match self.props.target {
            Some(id) => Action::Upgrade(id),
            None => Action::Idle,
        }
    }

    open spec fn coherent(&self) -> bool {
        &&& self.props.target is Some
        &&& self.props.style == TaskStyle::Perpetual
        &&& self.props.min_room_level == 1
        &&& !self.is_harvesting
    }

    open spec fn plan(&self, memory: CreepMemory, creep: Creep, room: Room) -> (
        CreepMemory,
        Intent,
    ) {
        upgrade_plan(memory, creep, room, self.controller_id(room))
    }

    fn run(&self, creep: &Creep, room: &Room, memory: &mut CreepMemory) -> (intent: Intent) {
        let controller_id: u128 = match self.props.target {
            Some(id) => id,
            None => match room.controller {
                Some(controller) => controller.id,
                None => 0,
            },
        };
        CreepAction::upgrade(creep, room, controller_id, memory)
    }

    fn get_target(&self) -> (target: Option<u128>) {
        self.props.target
    }

    fn set_target(&mut self, target: u128) {
        self.props.target = Some(target);
    }

    fn get_props(&self) -> (props: &TaskProps) {
        &self.props
    }

    fn set_props(&mut self, props: TaskProps) {
        self.props = props;
    }

    fn get_action(&self) -> (action: Action) {
        match self.props.target {
            Some(id) => Action::Upgrade(id),
            None => Action::Idle,
        }
    }

    fn is_well_formed(&self) -> (well_formed: bool) {
        let perpetual: bool = match self.props.style {
            TaskStyle::Perpetual => true,
            TaskStyle::Once => false,
        };
        self.props.target.is_some() && perpetual && self.props.min_room_level == 1
            && !self.is_harvesting && self.props.worked_by.len() <= UPGRADE_CAPACITY
            && names_distinct(&self.props.worked_by)
    }

    fn get_workable_name(&self) -> (kind: WorkableTask) {
        match self.props.target {
            Some(_) => WorkableTask::Upgrade,
            None => WorkableTask::Idle,
        }
    }

    fn needs_creeps(&self) -> (needed: bool) {
        self.props.worked_by.len() < UPGRADE_CAPACITY
    }

    fn needed_type(&self) -> (kind: MinionType) {
        match self.props.target {
            Some(_) => MinionType::Upgrader,
            None => MinionType::SimpleWorker,
        }
    }

    fn is_finished(&self) -> (finished: bool) {
        false
    }

    fn assign_creep(&mut self, creep: &Creep) {
        let ghost before = self.props.worked_by@;
        self.props.worked_by.push(creep.name.clone());
        proof {
            let after = self.props.worked_by@;
            assert(names(after) == names(before).push(creep.name@));
            assert forall|a: int, b: int|
                0 <= a < after.len() && 0 <= b < after.len() && a != b implies names(after)[a]
                != names(after)[b] by {
                if a < before.len() {
                    assert(names(before)[a] == names(after)[a]);
                }
                if b < before.len() {
                    assert(names(before)[b] == names(after)[b]);
                }
            }
        }
    }

    fn release_workers(&mut self, creeps: &Vec<CreepEntry>) {
        match self.props.target {
            Some(id) => {
                self.props.clean_up_workers(creeps, Action::Upgrade(id));
            },
            None => {},
        }
    }
}

} // verus!
