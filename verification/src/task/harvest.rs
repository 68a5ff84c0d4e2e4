//! Harvesting a source.

use vstd::prelude::*;
use crate::action::CreepAction;
use crate::action::harvest_plan;
use crate::action::Intent;
use crate::mem::CreepEntry;
use crate::mem::CreepMemory;
use crate::minion::MinionType;
use crate::task::Action;
use crate::task::names_distinct;
use crate::task::Task;
use crate::task::task_wf;
use crate::task::TaskProps;
use crate::task::TaskStyle;
use crate::task::WorkableTask;
use crate::util::search::names;
use crate::world::Creep;
use crate::world::Room;
use crate::world::Source;

verus! {

/// The task of harvesting one source, for as many creeps as can stand
/// around it.
#[derive(Clone, Debug, PartialEq, Eq)]
pub struct Harvest {
    pub props: TaskProps,
    pub source_id: u128,
    pub spaces_available: usize,
}

impl Harvest {
    /// The task of harvesting `source`, with room for `spaces_available`
    /// creeps and no worker yet.
    pub fn for_source(source: &Source, spaces_available: usize) -> (task: Harvest)
        requires
            spaces_available <= 8,
        ensures
            task_wf(task),
            task.source_id == source.id,
            task.spaces_available == spaces_available,
            task.props.worked_by@.len() == 0,
    {
        let task = Harvest {
            props: TaskProps {
                target: Some(source.id),
                style: TaskStyle::Perpetual,
                min_room_level: 1,
                worked_by: Vec::new(),
            },
            source_id: source.id,
            spaces_available,
        };
        assert(names(task.props.worked_by@) == Seq::<Seq<char>>::empty());
        task
    }
}

impl Task for Harvest {
    open spec fn props(&self) -> TaskProps {
        self.props
    }

    open spec fn capacity(&self) -> nat {
        self.spaces_available as nat
    }

    open spec fn action(&self) -> Action {
        Action::Harvest(self.source_id)
    }

    open spec fn coherent(&self) -> bool {
        &&& self.props.target == Some(self.source_id)
        &&& self.props.style == TaskStyle::Perpetual
        &&& self.props.min_room_level == 1
        &&& self.spaces_available <= 8
    }

    open spec fn plan(&self, memory: CreepMemory, creep: Creep, room: Room) -> (
        CreepMemory,
        Intent,
    ) {
        harvest_plan(memory, creep, room)
    }

    fn run(&self, creep: &Creep, room: &Room, memory: &mut CreepMemory) -> (intent: Intent) {
        CreepAction::harvest(creep, room, memory)
    }

    fn get_target(&self) -> (target: Option<u128>) {
        self.props.target
    }

    fn set_target(&mut self, target: u128) {
        self.props.target = Some(target);
        self.source_id = target;
    }

    fn get_props(&self) -> (props: &TaskProps) {
        &self.props
    }

    fn set_props(&mut self, props: TaskProps) {
        self.props = props;
    }

    fn get_action(&self) -> (action: Action) {
        Action::Harvest(self.source_id)
    }

    fn is_well_formed(&self) -> (well_formed: bool) {
        let target_fits: bool = match self.props.target {
            Some(id) => id == self.source_id,
            None => false,
        };
        let perpetual: bool = match self.props.style {
            TaskStyle::Perpetual => true,
            TaskStyle::Once => false,
        };
        target_fits && perpetual && self.props.min_room_level == 1 && self.spaces_available <= 8
            && self.props.worked_by.len() <= self.spaces_available && names_distinct(
            &self.props.worked_by,
        )
    }

    fn get_workable_name(&self) -> (kind: WorkableTask) {
        WorkableTask::Harvest
    }

    fn needs_creeps(&self) -> (needed: bool) {
        self.props.worked_by.len() < self.spaces_available
    }

    fn needed_type(&self) -> (kind: MinionType) {
        MinionType::Harvester
    }

    fn is_finished(&self) -> (finished: bool) {
        false
    }

    fn assign_creep(&mut self, creep: &Creep) {
        let ghost before = self.props.worked_by@;
        self.props.worked_by.push(creep.name.clone());
        proof {
            let after = self.props.worked_by@;
            assert(names(after) == names(before).push(creep.name@));
            assert forall|a: int, b: int|
                0 <= a < after.len() && 0 <= b < after.len() && a != b implies names(after)[a]
                != names(after)[b] by {
                if a < before.len() {
                    assert(names(before)[a] == names(after)[a]);
                }
                if b < before.len() {
                    assert(names(before)[b] == names(after)[b]);
                }
            }
        }
    }

    fn release_workers(&mut self, creeps: &Vec<CreepEntry>) {
        self.props.clean_up_workers(creeps, Action::Harvest(self.source_id));
    }
}

} // verus!
