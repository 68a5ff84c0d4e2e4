//! The per-creep state machine.
//!
//! A creep's tick has up to three parts. First the creep's record and the
//! world decide what the creep attempts ([`CreepAction::harvest`],
//! [`CreepAction::upgrade`]). The host carries the attempt out and reports
//! its code, which decides the next step and whether the creep has to walk
//! ([`CreepAction::harvest_result`], [`CreepAction::upgrade_result`]). Where
//! it has to, the host issues the movement and reports that code as well
//! ([`CreepAction::do_movement`]).

use vstd::prelude::*;
use crate::mem::CreepMemory;
use crate::task::Action;
use crate::util::path::CreepPath;
use crate::util::path::MovementDistance;
use crate::world::Controller;
use crate::world::Creep;
use crate::world::Position;
use crate::world::Room;
use crate::world::Source;
use crate::world::Spawn;

verus! {

/// Result of a command, as the world reports it.
#[derive(Clone, Copy, Debug, PartialEq, Eq, Structural)]
pub enum ReturnCode {
    Success,
    NotOwner,
    NoPath,
    NameExists,
    Busy,
    NotFound,
    NotEnough,
    InvalidTarget,
    Full,
    NotInRange,
    InvalidArgs,
    Tired,
    NoBodypart,
    RclNotEnough,
    GclNotEnough,
    AccessDenied,
}

/// Where a creep stands in carrying out its task.
#[derive(Clone, Copy, Debug, PartialEq, Eq, Structural)]
pub enum ActionStep {
    Harvesting,
    CollectingFrom,
    Upgrading,
    Building,
    Depositing,
    Moving(Position),
    /// A command came back with a code nobody expected; the code is shown
    /// and the creep starts over.
    Panic(ReturnCode),
}

/// What has to happen for a creep to get where it should be.
#[derive(Clone, Copy, Debug, PartialEq, Eq, Structural)]
pub enum Movement {
    /// The creep is close enough already; no command is issued.
    Arrived,
    /// The cached path of the creep's record is issued again.
    Follow,
    /// No path is cached: one has to be found, and is then issued.
    Plan { from: Position, to: Position, distance: MovementDistance },
}

/// The one command a creep attempts in a tick.
#[derive(Clone, Copy, Debug, PartialEq, Eq, Structural)]
pub enum Intent {
    /// Nothing this tick.
    Rest,
    /// Show this code.
    Say(ReturnCode),
    /// Harvest from this source.
    Harvest(Source),
    /// Upgrade this controller.
    Upgrade(Controller),
    /// Hand the carried energy to this spawn.
    Transfer(Spawn),
    /// Walk, nothing else.
    Travel(Movement),
}

/// The creep at `from` is as close to `to` as `distance` asks.
pub open spec fn reached(from: Position, to: Position, distance: MovementDistance) -> bool {
    match distance {
        MovementDistance::At => from.is_equal_to(to),
        MovementDistance::Near => from.is_near_to(to),
    }
}

/// What a creep at `from` does to get to `to`.
pub open spec fn movement_toward(
    memory: CreepMemory,
    from: Position,
    to: Position,
    distance: MovementDistance,
) -> Movement {
    if reached(from, to, distance) {
        Movement::Arrived
    } else if memory.current_path is Some {
        Movement::Follow
    } else {
        Movement::Plan { from, to, distance }
    }
}

/// The record after the creep at `from` was sent toward `to`: a creep that
/// has arrived forgets its path.
pub open spec fn memory_toward(
    memory: CreepMemory,
    from: Position,
    to: Position,
    distance: MovementDistance,
) -> CreepMemory {
    if reached(from, to, distance) {
        CreepMemory { current_path: None, ..memory }
    } else {
        memory
    }
}

/// The cached path survives a movement that went through, and one that only
/// failed because the creep was too tired to move.
pub open spec fn keeps_path(result: ReturnCode) -> bool {
    result is Success || result is Tired
}

/// The record after a movement command came back with `result`. `fresh` is
/// the path that was found for it, `None` where the cached one was issued.
pub open spec fn memory_after_movement(
    memory: CreepMemory,
    fresh: Option<CreepPath>,
    result: ReturnCode,
) -> CreepMemory {
    if !keeps_path(result) {
        CreepMemory { current_path: None, ..memory }
    } else if fresh is Some {
        CreepMemory { current_path: fresh, ..memory }
    } else {
        memory
    }
}

/// The record with another step.
pub open spec fn at_step(memory: CreepMemory, step: ActionStep) -> CreepMemory {
    CreepMemory { current_task_step: Some(step), ..memory }
}

/// The record of a creep whose target is gone: no task, no step.
pub open spec fn released(memory: CreepMemory) -> CreepMemory {
    CreepMemory { current_task: Action::Idle, current_task_step: None, ..memory }
}

/// What a harvesting creep attempts this tick, and its record after the
/// decision.
pub open spec fn harvest_plan(memory: CreepMemory, creep: Creep, room: Room) -> (
    CreepMemory,
    Intent,
) {
    match memory.current_task_step {
        None => (at_step(memory, ActionStep::Harvesting), Intent::Rest),
        Some(ActionStep::Panic(code)) => (at_step(memory, ActionStep::Harvesting), Intent::Say(code)),
        Some(ActionStep::Harvesting) => match memory.current_task {
            Action::Harvest(source_id) => if creep.free_capacity == 0 {
                (at_step(memory, ActionStep::Depositing), Intent::Rest)
            } else {
                match room.source(source_id) {
                    Some(source) => (memory, Intent::Harvest(source)),
                    None => (released(memory), Intent::Rest),
                }
            },
            _ => (released(memory), Intent::Rest),
        },
        Some(ActionStep::Depositing) => match room.spawn {
            None => (
                CreepMemory {
                    current_task: Action::Idle,
                    current_task_step: Some(ActionStep::Harvesting),
                    ..memory
                },
                Intent::Rest,
            ),
            Some(spawn) => if creep.used_capacity == 0 {
                (at_step(memory, ActionStep::Harvesting), Intent::Rest)
            } else {
                (memory, Intent::Transfer(spawn))
            },
        },
        Some(_) => (at_step(memory, ActionStep::Harvesting), Intent::Rest),
    }
}

/// The step a harvesting creep goes to when its attempt came back with
/// `code`, and the place it has to walk up to, if any. Attempts that the
/// harvesting creep never makes leave it where it is.
pub open spec fn harvest_outcome(memory: CreepMemory, intent: Intent, code: ReturnCode) -> (
    Option<ActionStep>,
    Option<Position>,
) {
    match intent {
        Intent::Harvest(source) => match code {
            ReturnCode::Success => (Some(ActionStep::Harvesting), None),
            ReturnCode::NotInRange => (Some(ActionStep::Harvesting), Some(source.pos)),
            _ => (Some(ActionStep::Panic(code)), None),
        },
        Intent::Transfer(spawn) => match code {
            ReturnCode::Success => (Some(ActionStep::Depositing), None),
            ReturnCode::Full => (Some(ActionStep::Depositing), None),
            ReturnCode::Tired => (Some(ActionStep::Depositing), None),
            ReturnCode::NotInRange => (Some(ActionStep::Depositing), Some(spawn.pos)),
            _ => (Some(ActionStep::Panic(code)), None),
        },
        _ => (memory.current_task_step, None),
    }
}

/// The record of a creep that turns to harvesting. Where its target is
/// gone, it loses its task as well.
pub open spec fn back_to_harvesting(memory: CreepMemory, target_stands: bool) -> CreepMemory {
    CreepMemory {
        current_task: if target_stands {
            memory.current_task
        } else {
            Action::Idle
        },
        current_task_step: Some(ActionStep::Harvesting),
        ..memory
    }
}

/// What an upgrading creep attempts this tick, and its record after the
/// decision.
///
/// An upgrading creep looks at its cargo first: with nothing to spend it
/// turns to harvesting, whether the room holds its controller or not. The
/// controller is needed for everything else a creep out of panic does.
pub open spec fn upgrade_plan(
    memory: CreepMemory,
    creep: Creep,
    room: Room,
    controller_id: u128,
) -> (CreepMemory, Intent) {
    let found = room.controller_with(controller_id);
    match memory.current_task_step {
        Some(ActionStep::Panic(code)) => (at_step(memory, ActionStep::Harvesting), Intent::Say(code)),
        Some(ActionStep::Upgrading) => if creep.used_capacity == 0 {
            (back_to_harvesting(memory, found is Some), Intent::Rest)
        } else {
            match found {
                Some(controller) => (memory, Intent::Upgrade(controller)),
                None => (released(memory), Intent::Rest),
            }
        },
        step => match found {
            None => (released(memory), Intent::Rest),
            Some(controller) => match step {
                Some(ActionStep::Harvesting) => if creep.free_capacity == 0 {
                    (at_step(memory, ActionStep::Upgrading), Intent::Rest)
                } else {
                    match room.last_source() {
                        Some(source) => (memory, Intent::Harvest(source)),
                        None => (memory, Intent::Rest),
                    }
                },
                _ => (at_step(memory, ActionStep::Harvesting), Intent::Rest),
            },
        },
    }
}

/// The step an upgrading creep goes to when its attempt came back with
/// `code`, and the place it has to walk up to, if any. Attempts that the
/// upgrading creep never makes leave it where it is.
pub open spec fn upgrade_outcome(memory: CreepMemory, intent: Intent, code: ReturnCode) -> (
    Option<ActionStep>,
    Option<Position>,
) {
    match intent {
        Intent::Harvest(source) => match code {
            ReturnCode::Success => (Some(ActionStep::Harvesting), None),
            ReturnCode::Tired => (Some(ActionStep::Harvesting), None),
            ReturnCode::Full => (Some(ActionStep::Upgrading), None),
            ReturnCode::NotInRange => (Some(ActionStep::Harvesting), Some(source.pos)),
            _ => (Some(ActionStep::Panic(code)), None),
        },
        Intent::Upgrade(controller) => match code {
            ReturnCode::Success => (Some(ActionStep::Upgrading), None),
            ReturnCode::NotEnough => (Some(ActionStep::Harvesting), None),
            ReturnCode::NotInRange => (Some(ActionStep::Upgrading), Some(controller.pos)),
            _ => (Some(ActionStep::Panic(code)), None),
        },
        _ => (memory.current_task_step, None),
    }
}

/// The record after a outcome: the new step, and the path forgotten where
/// the creep already stands next to the place it was to walk up to.
pub open spec fn memory_after_outcome(
    memory: CreepMemory,
    creep: Creep,
    outcome: (Option<ActionStep>, Option<Position>),
) -> CreepMemory {
    let stepped = CreepMemory { current_task_step: outcome.0, ..memory };
    match outcome.1 {
        Some(target) => memory_toward(stepped, creep.pos, target, MovementDistance::Near),
        None => stepped,
    }
}

/// The movement that a outcome asks for, if any.
pub open spec fn movement_after_outcome(
    memory: CreepMemory,
    creep: Creep,
    outcome: (Option<ActionStep>, Option<Position>),
) -> Option<Movement> {
    match outcome.1 {
        Some(target) => Some(
            movement_toward(memory, creep.pos, target, MovementDistance::Near),
        ),
        None => None,
    }
}

/// Sending a creep toward a place it has already reached issues no
/// movement and leaves no path cached, however often it is done: the second
/// time nothing changes any more.
pub proof fn lemma_arrived_is_idempotent(
    memory: CreepMemory,
    from: Position,
    to: Position,
    distance: MovementDistance,
)
    requires
        reached(from, to, distance),
    ensures
        movement_toward(memory, from, to, distance) == Movement::Arrived,
        memory_toward(memory, from, to, distance).current_path is None,
        movement_toward(memory_toward(memory, from, to, distance), from, to, distance)
            == Movement::Arrived,
        memory_toward(memory_toward(memory, from, to, distance), from, to, distance)
            == memory_toward(memory, from, to, distance),
{
}

/// A creep in panic shows the code and is harvesting after the decision,
/// whatever its task and whatever the world looks like; the task stays.
pub proof fn lemma_panic_recovers(
    memory: CreepMemory,
    creep: Creep,
    room: Room,
    controller_id: u128,
    code: ReturnCode,
)
    requires
        memory.current_task_step == Some(ActionStep::Panic(code)),
    ensures
        harvest_plan(memory, creep, room) == (
            at_step(memory, ActionStep::Harvesting),
            Intent::Say(code),
        ),
        upgrade_plan(memory, creep, room, controller_id) == (
            at_step(memory, ActionStep::Harvesting),
            Intent::Say(code),
        ),
{
}

/// A harvesting creep whose harvest or transfer comes back with a code that
/// is none of those it reckons with is in panic with that code; its task
/// stays.
pub proof fn lemma_harvester_panics(
    memory: CreepMemory,
    creep: Creep,
    intent: Intent,
    code: ReturnCode,
)
    requires
        intent is Harvest && !(code is Success || code is NotInRange) || intent is Transfer && !(
        code is Success || code is NotInRange || code is Full || code is Tired),
    ensures
        memory_after_outcome(memory, creep, harvest_outcome(memory, intent, code)) == at_step(
            memory,
            ActionStep::Panic(code),
        ),
        movement_after_outcome(memory, creep, harvest_outcome(memory, intent, code)) is None,
{
}

/// An upgrading creep whose harvest or upgrade comes back with a code that
/// is none of those it reckons with is in panic with that code; its task
/// stays.
pub proof fn lemma_upgrader_panics(
    memory: CreepMemory,
    creep: Creep,
    intent: Intent,
    code: ReturnCode,
)
    requires
        intent is Harvest && !(code is Success || code is NotInRange || code is Full
            || code is Tired) || intent is Upgrade && !(code is Success || code is NotInRange
            || code is NotEnough),
    ensures
        memory_after_outcome(memory, creep, upgrade_outcome(memory, intent, code)) == at_step(
            memory,
            ActionStep::Panic(code),
        ),
        movement_after_outcome(memory, creep, upgrade_outcome(memory, intent, code)) is None,
{
}

/// An upgrading creep that carries nothing is harvesting after the
/// decision and attempts nothing, whether the room holds its controller or
/// not. It keeps its task where the room holds the controller.
pub proof fn lemma_empty_upgrader_harvests(
    memory: CreepMemory,
    creep: Creep,
    room: Room,
    controller_id: u128,
)
    requires
        memory.current_task_step == Some(ActionStep::Upgrading),
        creep.used_capacity == 0,
    ensures
        upgrade_plan(memory, creep, room, controller_id).0.current_task_step == Some(
            ActionStep::Harvesting,
        ),
        upgrade_plan(memory, creep, room, controller_id).1 == Intent::Rest,
        room.controller_with(controller_id) is Some ==> upgrade_plan(
            memory,
            creep,
            room,
            controller_id,
        ).0 == at_step(memory, ActionStep::Harvesting),
{
}

/// A creep with an upgrade task that carries nothing and has room in its
/// cargo is harvesting after the decision, whatever it was doing before,
/// as long as the room holds its controller; its task stays, and it does
/// not attempt the upgrade.
pub proof fn lemma_empty_cargo_means_harvesting(
    memory: CreepMemory,
    creep: Creep,
    room: Room,
    controller_id: u128,
)
    requires
        creep.used_capacity == 0,
        creep.free_capacity > 0,
        room.controller_with(controller_id) is Some,
    ensures
        upgrade_plan(memory, creep, room, controller_id).0 == at_step(
            memory,
            ActionStep::Harvesting,
        ),
        !(upgrade_plan(memory, creep, room, controller_id).1 is Upgrade),
{
}

pub struct CreepAction;

impl CreepAction {
    /// Sends the creep onto `position`.
    ///
    /// A creep that stands there already forgets its cached path and gets no
    /// command. Any other creep follows its cached path, or has one planned
    /// where none is cached; its record stays as it is until the movement's
    /// result is known.
    pub fn move_to(creep: &Creep, position: Position, memory: &mut CreepMemory) -> (movement:
        Movement)
        ensures
            movement == movement_toward(*old(memory), creep.pos, position, MovementDistance::At),
            *final(memory) == memory_toward(
                *old(memory),
                creep.pos,
                position,
                MovementDistance::At,
            ),
    {
        if creep.pos.is_equal_to(position) {
            memory.current_path = None;
            Movement::Arrived
        } else if memory.current_path.is_some() {
            Movement::Follow
        } else {
            Movement::Plan { from: creep.pos, to: position, distance: MovementDistance::At }
        }
    }

    /// Sends the creep next to `position`; as [`CreepAction::move_to`], but a
    /// creep on any tile that touches `position` has arrived.
    pub fn move_near(creep: &Creep, position: Position, memory: &mut CreepMemory) -> (movement:
        Movement)
        ensures
            movement == movement_toward(
                *old(memory),
                creep.pos,
                position,
                MovementDistance::Near,
            ),
            *final(memory) == memory_toward(
                *old(memory),
                creep.pos,
                position,
                MovementDistance::Near,
            ),
    {
        if creep.pos.is_near_to(position) {
            memory.current_path = None;
            Movement::Arrived
        } else if memory.current_path.is_some() {
            Movement::Follow
        } else {
            Movement::Plan { from: creep.pos, to: position, distance: MovementDistance::Near }
        }
    }

    /// Takes in the result of a movement command. `fresh` is the path that
    /// was planned for it, `None` where the cached path was followed.
    ///
    /// The issued path is cached where the movement went through or the
    /// creep was only too tired; after any other result nothing is cached,
    /// so that the next movement plans anew.
    pub fn do_movement(memory: &mut CreepMemory, fresh: Option<CreepPath>, result: ReturnCode)
        ensures
            *final(memory) == memory_after_movement(*old(memory), fresh, result),
    {
        match result {
            ReturnCode::Success | ReturnCode::Tired => {
                if fresh.is_some() {
                    memory.current_path = fresh;
                }
            },
            _ => {
                memory.current_path = None;
            },
        }
    }

    /// Decides what a harvesting creep attempts this tick.
    ///
    /// A creep on its first run, or after a step that is none of its own,
    /// starts harvesting. A creep in panic shows the code and starts
    /// harvesting. A harvesting creep whose task names no source, or a
    /// source the room does not hold, loses task and step; with a full
    /// cargo it turns to depositing; else it attempts the harvest. A
    /// depositing creep in a room without spawn loses its task and goes back
    /// to harvesting; with an empty cargo it goes back to harvesting; else
    /// it attempts the transfer.
    pub fn harvest(creep: &Creep, room: &Room, memory: &mut CreepMemory) -> (intent: Intent)
        ensures
            (*final(memory), intent) == harvest_plan(*old(memory), *creep, *room),
    {
        match memory.current_task_step {
            None => {
                memory.current_task_step = Some(ActionStep::Harvesting);
                Intent::Rest
            },
            Some(ActionStep::Panic(code)) => {
                memory.current_task_step = Some(ActionStep::Harvesting);
                Intent::Say(code)
            },
            Some(ActionStep::Harvesting) => match memory.current_task {
                Action::Harvest(source_id) => {
                    if creep.free_capacity == 0 {
                        memory.current_task_step = Some(ActionStep::Depositing);
                        Intent::Rest
                    } else {
                        match room.source(source_id) {
                            Some(source) => Intent::Harvest(source),
                            None => {
                                memory.current_task = Action::Idle;
                                memory.current_task_step = None;
                                Intent::Rest
                            },
                        }
                    }
                },
                _ => {
                    memory.current_task = Action::Idle;
                    memory.current_task_step = None;
                    Intent::Rest
                },
            },
            Some(ActionStep::Depositing) => match room.spawn {
                None => {
                    memory.current_task = Action::Idle;
                    memory.current_task_step = Some(ActionStep::Harvesting);
                    Intent::Rest
                },
                Some(spawn) => {
                    if creep.used_capacity == 0 {
                        memory.current_task_step = Some(ActionStep::Harvesting);
                        Intent::Rest
                    } else {
                        Intent::Transfer(spawn)
                    }
                },
            },
            Some(_) => {
                memory.current_task_step = Some(ActionStep::Harvesting);
                Intent::Rest
            },
        }
    }

    /// Takes in the code of a harvesting creep's attempt.
    ///
    /// A harvest that went through keeps the creep harvesting; out of range
    /// it keeps harvesting and walks up to the source; any other code puts
    /// it in panic. A transfer that went through, or met a full spawn or a
    /// tired creep, keeps the creep depositing; out of range it keeps
    /// depositing and walks up to the spawn; any other code puts it in
    /// panic. The task is never touched.
    pub fn harvest_result(
        creep: &Creep,
        intent: Intent,
        code: ReturnCode,
        memory: &mut CreepMemory,
    ) -> (movement: Option<Movement>)
        ensures
            *final(memory) == memory_after_outcome(
                *old(memory),
                *creep,
                harvest_outcome(*old(memory), intent, code),
            ),
            movement == movement_after_outcome(
                *old(memory),
                *creep,
                harvest_outcome(*old(memory), intent, code),
            ),
    {
        let target: Option<Position> = match intent {
            Intent::Harvest(source) => match code {
                ReturnCode::Success => {
                    memory.current_task_step = Some(ActionStep::Harvesting);
                    None
                },
                ReturnCode::NotInRange => {
                    memory.current_task_step = Some(ActionStep::Harvesting);
                    Some(source.pos)
                },
                _ => {
                    memory.current_task_step = Some(ActionStep::Panic(code));
                    None
                },
            },
            Intent::Transfer(spawn) => match code {
                ReturnCode::Success | ReturnCode::Full | ReturnCode::Tired => {
                    memory.current_task_step = Some(ActionStep::Depositing);
                    None
                },
                ReturnCode::NotInRange => {
                    memory.current_task_step = Some(ActionStep::Depositing);
                    Some(spawn.pos)
                },
                _ => {
                    memory.current_task_step = Some(ActionStep::Panic(code));
                    None
                },
            },
            _ => None,
        };
        match target {
            Some(position) => Some(Self::move_near(creep, position, memory)),
            None => None,
        }
    }

    /// Decides what an upgrading creep attempts this tick.
    ///
    /// A creep in panic shows the code and starts harvesting. An upgrading
    /// creep with an empty cargo turns to harvesting and attempts nothing;
    /// if the room does not hold its controller, it loses its task as well.
    /// Any other creep whose controller the room does not hold loses task
    /// and step. Otherwise an upgrading creep attempts the upgrade; a
    /// harvesting creep with a full cargo turns to upgrading, and with room
    /// left attempts to harvest from the source the room lists last; from
    /// any other step, and on its first run, the creep starts harvesting.
    pub fn upgrade(creep: &Creep, room: &Room, controller_id: u128, memory: &mut CreepMemory) -> (intent:
        Intent)
        ensures
            (*final(memory), intent) == upgrade_plan(*old(memory), *creep, *room, controller_id),
    {
        if let Some(ActionStep::Panic(code)) = memory.current_task_step {
            memory.current_task_step = Some(ActionStep::Harvesting);
            return Intent::Say(code);
        }
        let found = room.controller_with(controller_id);
        if let Some(ActionStep::Upgrading) = memory.current_task_step {
            if creep.used_capacity == 0 {
                if found.is_none() {
                    memory.current_task = Action::Idle;
                }
                memory.current_task_step = Some(ActionStep::Harvesting);
                return Intent::Rest;
            }
        }
        let controller: Controller = match found {
            Some(controller) => controller,
            None => {
                memory.current_task = Action::Idle;
                memory.current_task_step = None;
                return Intent::Rest;
            },
        };
        match memory.current_task_step {
            Some(ActionStep::Harvesting) => {
                if creep.free_capacity == 0 {
                    memory.current_task_step = Some(ActionStep::Upgrading);
                    Intent::Rest
                } else {
                    match room.last_source() {
                        Some(source) => Intent::Harvest(source),
                        None => Intent::Rest,
                    }
                }
            },
            Some(ActionStep::Upgrading) => Intent::Upgrade(controller),
            _ => {
                memory.current_task_step = Some(ActionStep::Harvesting);
                Intent::Rest
            },
        }
    }

    /// Takes in the code of an upgrading creep's attempt.
    ///
    /// A harvest that went through, or met a tired creep, keeps the creep
    /// harvesting; a full cargo turns it to upgrading; out of range it keeps
    /// harvesting and walks up to the source. An upgrade that went through
    /// keeps the creep upgrading; for want of energy it turns to harvesting;
    /// out of range it keeps upgrading and walks up to the controller. Any
    /// other code puts the creep in panic. The task is never touched.
    pub fn upgrade_result(
        creep: &Creep,
        intent: Intent,
        code: ReturnCode,
        memory: &mut CreepMemory,
    ) -> (movement: Option<Movement>)
        ensures
            *final(memory) == memory_after_outcome(
                *old(memory),
                *creep,
                upgrade_outcome(*old(memory), intent, code),
            ),
            movement == movement_after_outcome(
                *old(memory),
                *creep,
                upgrade_outcome(*old(memory), intent, code),
            ),
    {
        let target: Option<Position> = match intent {
            Intent::Harvest(source) => match code {
                ReturnCode::Success | ReturnCode::Tired => {
                    memory.current_task_step = Some(ActionStep::Harvesting);
                    None
                },
                ReturnCode::Full => {
                    memory.current_task_step = Some(ActionStep::Upgrading);
                    None
                },
                ReturnCode::NotInRange => {
                    memory.current_task_step = Some(ActionStep::Harvesting);
                    Some(source.pos)
                },
                _ => {
                    memory.current_task_step = Some(ActionStep::Panic(code));
                    None
                },
            },
            Intent::Upgrade(controller) => match code {
                ReturnCode::Success => {
                    memory.current_task_step = Some(ActionStep::Upgrading);
                    None
                },
                ReturnCode::NotEnough => {
                    memory.current_task_step = Some(ActionStep::Harvesting);
                    None
                },
                ReturnCode::NotInRange => {
                    memory.current_task_step = Some(ActionStep::Upgrading);
                    Some(controller.pos)
                },
                _ => {
                    memory.current_task_step = Some(ActionStep::Panic(code));
                    None
                },
            },
            _ => None,
        };
        match target {
            Some(position) => Some(Self::move_near(creep, position, memory)),
            None => None,
        }
    }

    /// Building is not part of any creep's work yet: nothing is attempted
    /// and the record stays as it is.
    pub fn build(creep: &Creep, site: u128, memory: &mut CreepMemory) -> (intent: Intent)
        ensures
            intent == Intent::Rest,
            *final(memory) == *old(memory),
    {
        Intent::Rest
    }
}

} // verus!
