use colony_core::action::ActionStep;
use colony_core::action::CreepAction;
use colony_core::action::Intent;
use colony_core::action::Movement;
use colony_core::action::ReturnCode;
use colony_core::mem::CreepMemory;
use colony_core::minion::MinionType;
use colony_core::minion::Minions;
use colony_core::role::CreepAction as Fallback;
use colony_core::room::RoomRectangle;
use colony_core::room::Terrain;
use colony_core::task::Action;
use colony_core::util::path::CreepPath;
use colony_core::util::path::MovementDistance;
use colony_core::util::path::Step;
use colony_core::world::Controller;
use colony_core::world::Creep;
use colony_core::world::Position;
use colony_core::world::Room;
use colony_core::world::Source;
use colony_core::world::Spawn;

const ROOM: u16 = 7;

fn at(x: u8, y: u8) -> Position {
    Position { x, y, room: ROOM }
}

fn creep(name: &str, x: u8, y: u8, used: u32, free: u32) -> Creep {
    Creep {
        name: name.to_string(),
        pos: at(x, y),
        free_capacity: free,
        used_capacity: used,
        spawning: false,
    }
}

fn plain_grid() -> RoomRectangle {
    let found: Vec<Vec<Terrain>> = vec![vec![Terrain::Plain]; 2500];
    RoomRectangle::for_room("W1N1".to_string(), &found)
}

fn source(id: u128, x: u8, y: u8) -> Source {
    Source { id, pos: at(x, y) }
}

fn the_controller() -> Controller {
    Controller { id: 900, pos: at(40, 40), level: 2 }
}

fn the_spawn() -> Spawn {
    Spawn { id: 800, pos: at(25, 25), busy: false, energy: 300 }
}

fn room() -> Room {
    Room {
        name: ROOM,
        terrain: plain_grid(),
        sources: vec![source(1, 10, 10), source(2, 30, 12)],
        controller: Some(the_controller()),
        spawn: Some(the_spawn()),
        extensions: 0,
        extension_sites: 0,
    }
}

fn memory(role: MinionType, task: Action, step: Option<ActionStep>) -> CreepMemory {
    CreepMemory {
        worker_type: role,
        current_path: None,
        last_position: None,
        current_task: task,
        current_task_step: step,
    }
}

fn some_path() -> CreepPath {
    CreepPath {
        steps: vec![Step { x: 1, y: 2, dx: 1, dy: 0, direction: 3 }],
        distance: MovementDistance::Near,
    }
}

fn harvester(step: Option<ActionStep>) -> CreepMemory {
    memory(MinionType::Harvester, Action::Harvest(1), step)
}

fn upgrader(step: Option<ActionStep>) -> CreepMemory {
    memory(MinionType::Upgrader, Action::Upgrade(900), step)
}

#[test]
fn move_near_arrives_next_to_the_target_and_forgets_the_path() {
    let c = creep("a", 11, 11, 0, 50);
    let mut m = harvester(Some(ActionStep::Harvesting));
    m.current_path = Some(some_path());
    let movement = CreepAction::move_near(&c, at(10, 10), &mut m);
    assert_eq!(movement, Movement::Arrived);
    assert_eq!(m.current_path, None);
    assert_eq!(m.current_task, Action::Harvest(1));
    assert_eq!(m.current_task_step, Some(ActionStep::Harvesting));
}

#[test]
fn move_near_again_after_arrival_changes_nothing() {
    let c = creep("a", 10, 11, 0, 50);
    let mut m = harvester(Some(ActionStep::Harvesting));
    m.current_path = Some(some_path());
    assert_eq!(CreepAction::move_near(&c, at(10, 10), &mut m), Movement::Arrived);
    let after_first = m.clone();
    assert_eq!(CreepAction::move_near(&c, at(10, 10), &mut m), Movement::Arrived);
    assert_eq!(m, after_first);
    assert_eq!(m.current_path, None);
}

#[test]
fn move_to_again_after_arrival_changes_nothing() {
    let c = creep("a", 10, 10, 0, 50);
    let mut m = harvester(None);
    m.current_path = Some(some_path());
    assert_eq!(CreepAction::move_to(&c, at(10, 10), &mut m), Movement::Arrived);
    assert_eq!(m.current_path, None);
    assert_eq!(CreepAction::move_to(&c, at(10, 10), &mut m), Movement::Arrived);
    assert_eq!(m.current_path, None);
}

#[test]
fn move_to_is_not_content_with_the_tile_next_door() {
    let c = creep("a", 10, 11, 0, 50);
    let mut m = harvester(None);
    let movement = CreepAction::move_to(&c, at(10, 10), &mut m);
    assert_eq!(
        movement,
        Movement::Plan { from: at(10, 11), to: at(10, 10), distance: MovementDistance::At }
    );
    assert_eq!(m, harvester(None));
}

#[test]
fn move_near_follows_the_cached_path() {
    let c = creep("a", 20, 20, 0, 50);
    let mut m = harvester(None);
    m.current_path = Some(some_path());
    assert_eq!(CreepAction::move_near(&c, at(10, 10), &mut m), Movement::Follow);
    assert_eq!(m.current_path, Some(some_path()));
}

#[test]
fn move_near_plans_where_nothing_is_cached() {
    let c = creep("a", 20, 20, 0, 50);
    let mut m = harvester(None);
    assert_eq!(
        CreepAction::move_near(&c, at(10, 10), &mut m),
        Movement::Plan { from: at(20, 20), to: at(10, 10), distance: MovementDistance::Near }
    );
    assert_eq!(m.current_path, None);
}

#[test]
fn move_near_in_another_room_is_not_near() {
    let c = creep("a", 10, 10, 0, 50);
    let mut m = harvester(None);
    let far = Position { x: 10, y: 10, room: ROOM + 1 };
    assert_eq!(
        CreepAction::move_near(&c, far, &mut m),
        Movement::Plan { from: at(10, 10), to: far, distance: MovementDistance::Near }
    );
}

#[test]
fn do_movement_caches_the_fresh_path_after_success() {
    let mut m = harvester(None);
    CreepAction::do_movement(&mut m, Some(some_path()), ReturnCode::Success);
    assert_eq!(m.current_path, Some(some_path()));
}

#[test]
fn do_movement_keeps_the_path_of_a_tired_creep() {
    let mut m = harvester(None);
    m.current_path = Some(some_path());
    CreepAction::do_movement(&mut m, None, ReturnCode::Tired);
    assert_eq!(m.current_path, Some(some_path()));
    let mut fresh = harvester(None);
    CreepAction::do_movement(&mut fresh, Some(some_path()), ReturnCode::Tired);
    assert_eq!(fresh.current_path, Some(some_path()));
}

#[test]
fn do_movement_drops_the_path_after_any_other_code() {
    let codes = [
        ReturnCode::NotOwner,
        ReturnCode::NoPath,
        ReturnCode::NameExists,
        ReturnCode::Busy,
        ReturnCode::NotFound,
        ReturnCode::NotEnough,
        ReturnCode::InvalidTarget,
        ReturnCode::Full,
        ReturnCode::NotInRange,
        ReturnCode::InvalidArgs,
        ReturnCode::NoBodypart,
        ReturnCode::RclNotEnough,
        ReturnCode::GclNotEnough,
        ReturnCode::AccessDenied,
    ];
    for code in codes {
        let mut cached = harvester(None);
        cached.current_path = Some(some_path());
        CreepAction::do_movement(&mut cached, None, code);
        assert_eq!(cached.current_path, None);
        let mut fresh = harvester(None);
        CreepAction::do_movement(&mut fresh, Some(some_path()), code);
        assert_eq!(fresh.current_path, None);
    }
}

#[test]
fn do_movement_touches_nothing_but_the_path() {
    let mut m = upgrader(Some(ActionStep::Upgrading));
    m.last_position = Some(at(3, 4));
    CreepAction::do_movement(&mut m, Some(some_path()), ReturnCode::NoPath);
    let mut expected = upgrader(Some(ActionStep::Upgrading));
    expected.last_position = Some(at(3, 4));
    assert_eq!(m, expected);
}

#[test]
fn harvester_starts_out_harvesting() {
    let mut m = harvester(None);
    let intent = CreepAction::harvest(&creep("a", 1, 1, 0, 50), &room(), &mut m);
    assert_eq!(intent, Intent::Rest);
    assert_eq!(m, harvester(Some(ActionStep::Harvesting)));
}

#[test]
fn harvester_attempts_the_harvest_of_its_source() {
    let mut m = harvester(Some(ActionStep::Harvesting));
    let intent = CreepAction::harvest(&creep("a", 1, 1, 10, 40), &room(), &mut m);
    assert_eq!(intent, Intent::Harvest(source(1, 10, 10)));
    assert_eq!(m, harvester(Some(ActionStep::Harvesting)));
}

#[test]
fn harvester_with_full_cargo_turns_to_depositing() {
    let mut m = harvester(Some(ActionStep::Harvesting));
    let intent = CreepAction::harvest(&creep("a", 1, 1, 50, 0), &room(), &mut m);
    assert_eq!(intent, Intent::Rest);
    assert_eq!(m, harvester(Some(ActionStep::Depositing)));
}

#[test]
fn harvester_loses_a_task_whose_source_is_gone() {
    let mut m = memory(MinionType::Harvester, Action::Harvest(77), Some(ActionStep::Harvesting));
    let intent = CreepAction::harvest(&creep("a", 1, 1, 0, 50), &room(), &mut m);
    assert_eq!(intent, Intent::Rest);
    assert_eq!(m, memory(MinionType::Harvester, Action::Idle, None));
}

#[test]
fn harvester_loses_a_task_that_names_no_source() {
    for task in [Action::Idle, Action::Upgrade(900), Action::Deposit(800)] {
        let mut m = memory(MinionType::Harvester, task, Some(ActionStep::Harvesting));
        let intent = CreepAction::harvest(&creep("a", 1, 1, 0, 50), &room(), &mut m);
        assert_eq!(intent, Intent::Rest);
        assert_eq!(m, memory(MinionType::Harvester, Action::Idle, None));
    }
}

#[test]
fn depositing_without_spawn_clears_the_task_and_goes_back_to_harvesting() {
    let mut r = room();
    r.spawn = None;
    let mut m = harvester(Some(ActionStep::Depositing));
    let intent = CreepAction::harvest(&creep("a", 1, 1, 50, 0), &r, &mut m);
    assert_eq!(intent, Intent::Rest);
    assert_eq!(
        m,
        memory(MinionType::Harvester, Action::Idle, Some(ActionStep::Harvesting))
    );
}

#[test]
fn depositing_with_empty_cargo_goes_back_to_harvesting() {
    let mut m = harvester(Some(ActionStep::Depositing));
    let intent = CreepAction::harvest(&creep("a", 1, 1, 0, 50), &room(), &mut m);
    assert_eq!(intent, Intent::Rest);
    assert_eq!(m, harvester(Some(ActionStep::Harvesting)));
}

#[test]
fn depositing_attempts_the_transfer() {
    let mut m = harvester(Some(ActionStep::Depositing));
    let intent = CreepAction::harvest(&creep("a", 1, 1, 20, 30), &room(), &mut m);
    assert_eq!(intent, Intent::Transfer(the_spawn()));
    assert_eq!(m, harvester(Some(ActionStep::Depositing)));
}

#[test]
fn harvester_leaves_foreign_steps_for_harvesting() {
    for step in [
        ActionStep::CollectingFrom,
        ActionStep::Upgrading,
        ActionStep::Building,
        ActionStep::Moving(at(1, 1)),
    ] {
        let mut m = harvester(Some(step));
        let intent = CreepAction::harvest(&creep("a", 1, 1, 0, 50), &room(), &mut m);
        assert_eq!(intent, Intent::Rest);
        assert_eq!(m, harvester(Some(ActionStep::Harvesting)));
    }
}

#[test]
fn harvest_that_went_through_keeps_harvesting() {
    let mut m = harvester(Some(ActionStep::Harvesting));
    let c = creep("a", 11, 10, 0, 50);
    let movement =
        CreepAction::harvest_result(&c, Intent::Harvest(source(1, 10, 10)), ReturnCode::Success, &mut m);
    assert_eq!(movement, None);
    assert_eq!(m, harvester(Some(ActionStep::Harvesting)));
}

#[test]
fn harvest_out_of_range_walks_up_to_the_source() {
    let mut m = harvester(Some(ActionStep::Harvesting));
    let c = creep("a", 20, 20, 0, 50);
    let movement = CreepAction::harvest_result(
        &c,
        Intent::Harvest(source(1, 10, 10)),
        ReturnCode::NotInRange,
        &mut m,
    );
    assert_eq!(
        movement,
        Some(Movement::Plan {
            from: at(20, 20),
            to: at(10, 10),
            distance: MovementDistance::Near
        })
    );
    assert_eq!(m, harvester(Some(ActionStep::Harvesting)));
}

#[test]
fn harvest_with_any_other_code_panics_and_keeps_the_task() {
    for code in [
        ReturnCode::NotOwner,
        ReturnCode::Busy,
        ReturnCode::NotFound,
        ReturnCode::NotEnough,
        ReturnCode::InvalidTarget,
        ReturnCode::Full,
        ReturnCode::Tired,
        ReturnCode::NoBodypart,
        ReturnCode::AccessDenied,
    ] {
        let mut m = harvester(Some(ActionStep::Harvesting));
        let c = creep("a", 11, 10, 0, 50);
        let movement =
            CreepAction::harvest_result(&c, Intent::Harvest(source(1, 10, 10)), code, &mut m);
        assert_eq!(movement, None);
        assert_eq!(m, harvester(Some(ActionStep::Panic(code))));
    }
}

#[test]
fn transfer_results_keep_the_creep_depositing() {
    for code in [ReturnCode::Success, ReturnCode::Full, ReturnCode::Tired] {
        let mut m = harvester(Some(ActionStep::Depositing));
        let c = creep("a", 24, 25, 20, 30);
        let movement = CreepAction::harvest_result(&c, Intent::Transfer(the_spawn()), code, &mut m);
        assert_eq!(movement, None);
        assert_eq!(m, harvester(Some(ActionStep::Depositing)));
    }
}

#[test]
fn transfer_out_of_range_walks_up_to_the_spawn() {
    let mut m = harvester(Some(ActionStep::Depositing));
    m.current_path = Some(some_path());
    let c = creep("a", 2, 2, 20, 30);
    let movement =
        CreepAction::harvest_result(&c, Intent::Transfer(the_spawn()), ReturnCode::NotInRange, &mut m);
    assert_eq!(movement, Some(Movement::Follow));
    assert_eq!(m.current_task_step, Some(ActionStep::Depositing));
    assert_eq!(m.current_path, Some(some_path()));
}

#[test]
fn transfer_with_an_unexpected_code_panics() {
    let mut m = harvester(Some(ActionStep::Depositing));
    let c = creep("a", 24, 25, 20, 30);
    let movement = CreepAction::harvest_result(
        &c,
        Intent::Transfer(the_spawn()),
        ReturnCode::InvalidTarget,
        &mut m,
    );
    assert_eq!(movement, None);
    assert_eq!(m, harvester(Some(ActionStep::Panic(ReturnCode::InvalidTarget))));
}

#[test]
fn harvest_result_ignores_attempts_that_are_not_its_own() {
    for intent in [
        Intent::Rest,
        Intent::Say(ReturnCode::Busy),
        Intent::Upgrade(the_controller()),
        Intent::Travel(Movement::Arrived),
    ] {
        let mut m = harvester(Some(ActionStep::Depositing));
        let c = creep("a", 24, 25, 20, 30);
        assert_eq!(CreepAction::harvest_result(&c, intent, ReturnCode::Busy, &mut m), None);
        assert_eq!(m, harvester(Some(ActionStep::Depositing)));
    }
}

#[test]
fn upgrader_with_empty_cargo_is_harvesting_after_the_decision() {
    for step in [None, Some(ActionStep::Upgrading), Some(ActionStep::Harvesting)] {
        let mut m = upgrader(step);
        CreepAction::upgrade(&creep("u", 5, 5, 0, 50), &room(), 900, &mut m);
        assert_eq!(m.current_task_step, Some(ActionStep::Harvesting));
        assert_eq!(m.current_task, Action::Upgrade(900));
    }
}

#[test]
fn upgrader_turns_to_harvesting_without_attempting_the_upgrade() {
    let mut m = upgrader(Some(ActionStep::Upgrading));
    let intent = CreepAction::upgrade(&creep("u", 5, 5, 0, 50), &room(), 900, &mut m);
    assert_eq!(intent, Intent::Rest);
    assert_eq!(m, upgrader(Some(ActionStep::Harvesting)));
}

#[test]
fn upgrader_harvests_from_the_source_listed_last() {
    let mut m = upgrader(Some(ActionStep::Harvesting));
    let intent = CreepAction::upgrade(&creep("u", 5, 5, 10, 40), &room(), 900, &mut m);
    assert_eq!(intent, Intent::Harvest(source(2, 30, 12)));
    assert_eq!(m, upgrader(Some(ActionStep::Harvesting)));
}

#[test]
fn upgrader_without_any_source_rests() {
    let mut r = room();
    r.sources = vec![];
    let mut m = upgrader(Some(ActionStep::Harvesting));
    let intent = CreepAction::upgrade(&creep("u", 5, 5, 10, 40), &r, 900, &mut m);
    assert_eq!(intent, Intent::Rest);
    assert_eq!(m, upgrader(Some(ActionStep::Harvesting)));
}

#[test]
fn upgrader_with_full_cargo_turns_to_upgrading() {
    let mut m = upgrader(Some(ActionStep::Harvesting));
    let intent = CreepAction::upgrade(&creep("u", 5, 5, 50, 0), &room(), 900, &mut m);
    assert_eq!(intent, Intent::Rest);
    assert_eq!(m, upgrader(Some(ActionStep::Upgrading)));
}

#[test]
fn upgrader_attempts_the_upgrade() {
    let mut m = upgrader(Some(ActionStep::Upgrading));
    let intent = CreepAction::upgrade(&creep("u", 5, 5, 50, 0), &room(), 900, &mut m);
    assert_eq!(intent, Intent::Upgrade(the_controller()));
    assert_eq!(m, upgrader(Some(ActionStep::Upgrading)));
}

#[test]
fn upgrader_loses_a_task_whose_controller_is_gone() {
    let mut gone = room();
    gone.controller = None;
    let mut other = room();
    other.controller = Some(Controller { id: 901, pos: at(40, 40), level: 2 });
    for r in [gone, other] {
        let mut m = upgrader(Some(ActionStep::Upgrading));
        let intent = CreepAction::upgrade(&creep("u", 5, 5, 50, 0), &r, 900, &mut m);
        assert_eq!(intent, Intent::Rest);
        assert_eq!(m, memory(MinionType::Upgrader, Action::Idle, None));
    }
}

#[test]
fn upgrader_with_empty_cargo_turns_to_harvesting_even_without_controller() {
    let mut gone = room();
    gone.controller = None;
    let mut other = room();
    other.controller = Some(Controller { id: 901, pos: at(40, 40), level: 2 });
    for r in [gone, other] {
        for free in [50, 0] {
            let mut m = upgrader(Some(ActionStep::Upgrading));
            m.current_path = Some(some_path());
            let intent = CreepAction::upgrade(&creep("u", 5, 5, 0, free), &r, 900, &mut m);
            assert_eq!(intent, Intent::Rest);
            let mut expected =
                memory(MinionType::Upgrader, Action::Idle, Some(ActionStep::Harvesting));
            expected.current_path = Some(some_path());
            assert_eq!(m, expected);
        }
    }
}

#[test]
fn upgrader_without_controller_loses_task_and_step_from_any_other_step() {
    let mut gone = room();
    gone.controller = None;
    for step in [
        None,
        Some(ActionStep::Harvesting),
        Some(ActionStep::CollectingFrom),
        Some(ActionStep::Building),
        Some(ActionStep::Depositing),
        Some(ActionStep::Moving(at(1, 1))),
    ] {
        let mut m = upgrader(step);
        let intent = CreepAction::upgrade(&creep("u", 5, 5, 0, 50), &gone, 900, &mut m);
        assert_eq!(intent, Intent::Rest);
        assert_eq!(m, memory(MinionType::Upgrader, Action::Idle, None));
    }
}

#[test]
fn upgrader_leaves_foreign_steps_for_harvesting() {
    for step in [
        ActionStep::CollectingFrom,
        ActionStep::Building,
        ActionStep::Depositing,
        ActionStep::Moving(at(1, 1)),
    ] {
        let mut m = upgrader(Some(step));
        let intent = CreepAction::upgrade(&creep("u", 5, 5, 50, 0), &room(), 900, &mut m);
        assert_eq!(intent, Intent::Rest);
        assert_eq!(m, upgrader(Some(ActionStep::Harvesting)));
    }
}

#[test]
fn upgrade_results_follow_the_table() {
    let c = creep("u", 5, 5, 50, 0);
    let attempt = Intent::Upgrade(the_controller());
    let mut m = upgrader(Some(ActionStep::Upgrading));
    assert_eq!(CreepAction::upgrade_result(&c, attempt, ReturnCode::Success, &mut m), None);
    assert_eq!(m, upgrader(Some(ActionStep::Upgrading)));
    let mut m = upgrader(Some(ActionStep::Upgrading));
    assert_eq!(CreepAction::upgrade_result(&c, attempt, ReturnCode::NotEnough, &mut m), None);
    assert_eq!(m, upgrader(Some(ActionStep::Harvesting)));
    let mut m = upgrader(Some(ActionStep::Upgrading));
    assert_eq!(
        CreepAction::upgrade_result(&c, attempt, ReturnCode::NotInRange, &mut m),
        Some(Movement::Plan {
            from: at(5, 5),
            to: at(40, 40),
            distance: MovementDistance::Near
        })
    );
    assert_eq!(m, upgrader(Some(ActionStep::Upgrading)));
}

#[test]
fn upgrade_with_an_unexpected_code_panics_and_keeps_the_task() {
    for code in [
        ReturnCode::NotOwner,
        ReturnCode::Busy,
        ReturnCode::InvalidTarget,
        ReturnCode::NoBodypart,
        ReturnCode::Full,
        ReturnCode::Tired,
    ] {
        let mut m = upgrader(Some(ActionStep::Upgrading));
        let c = creep("u", 39, 40, 50, 0);
        let movement = CreepAction::upgrade_result(&c, Intent::Upgrade(the_controller()), code, &mut m);
        assert_eq!(movement, None);
        assert_eq!(m.current_task_step, Some(ActionStep::Panic(code)));
        assert_eq!(m.current_task, Action::Upgrade(900));
    }
}

#[test]
fn upgrader_harvest_results_follow_the_table() {
    let c = creep("u", 5, 5, 10, 40);
    let attempt = Intent::Harvest(source(2, 30, 12));
    for (code, step) in [
        (ReturnCode::Success, ActionStep::Harvesting),
        (ReturnCode::Tired, ActionStep::Harvesting),
        (ReturnCode::Full, ActionStep::Upgrading),
        (ReturnCode::NotFound, ActionStep::Panic(ReturnCode::NotFound)),
    ] {
        let mut m = upgrader(Some(ActionStep::Harvesting));
        assert_eq!(CreepAction::upgrade_result(&c, attempt, code, &mut m), None);
        assert_eq!(m, upgrader(Some(step)));
    }
    let mut m = upgrader(Some(ActionStep::Harvesting));
    assert_eq!(
        CreepAction::upgrade_result(&c, attempt, ReturnCode::NotInRange, &mut m),
        Some(Movement::Plan {
            from: at(5, 5),
            to: at(30, 12),
            distance: MovementDistance::Near
        })
    );
    assert_eq!(m, upgrader(Some(ActionStep::Harvesting)));
}

#[test]
fn out_of_range_next_to_the_target_forgets_the_path_and_issues_nothing() {
    let c = creep("u", 39, 39, 50, 0);
    let mut m = upgrader(Some(ActionStep::Upgrading));
    m.current_path = Some(some_path());
    let movement =
        CreepAction::upgrade_result(&c, Intent::Upgrade(the_controller()), ReturnCode::NotInRange, &mut m);
    assert_eq!(movement, Some(Movement::Arrived));
    assert_eq!(m, upgrader(Some(ActionStep::Upgrading)));
}

#[test]
fn panic_shows_the_code_and_recovers_whatever_the_role() {
    let c = creep("a", 1, 1, 0, 50);
    let mut h = harvester(Some(ActionStep::Panic(ReturnCode::InvalidArgs)));
    assert_eq!(CreepAction::harvest(&c, &room(), &mut h), Intent::Say(ReturnCode::InvalidArgs));
    assert_eq!(h, harvester(Some(ActionStep::Harvesting)));
    let mut u = upgrader(Some(ActionStep::Panic(ReturnCode::NoBodypart)));
    assert_eq!(
        CreepAction::upgrade(&c, &room(), 900, &mut u),
        Intent::Say(ReturnCode::NoBodypart)
    );
    assert_eq!(u, upgrader(Some(ActionStep::Harvesting)));
}

#[test]
fn panic_recovers_even_where_the_controller_is_gone() {
    let mut r = room();
    r.controller = None;
    let mut u = upgrader(Some(ActionStep::Panic(ReturnCode::Busy)));
    let intent = CreepAction::upgrade(&creep("u", 1, 1, 0, 50), &r, 900, &mut u);
    assert_eq!(intent, Intent::Say(ReturnCode::Busy));
    assert_eq!(u, upgrader(Some(ActionStep::Harvesting)));
}

#[test]
fn build_attempts_nothing() {
    let mut m = harvester(Some(ActionStep::Building));
    assert_eq!(CreepAction::build(&creep("a", 1, 1, 0, 50), 5, &mut m), Intent::Rest);
    assert_eq!(m, harvester(Some(ActionStep::Building)));
}

#[test]
fn idle_creep_keeps_near_the_controller() {
    let c = creep("w", 3, 3, 0, 50);
    let mut m = memory(MinionType::SimpleWorker, Action::Idle, None);
    let movement = Fallback::idle(&c, &room(), &mut m);
    assert_eq!(
        movement,
        Some(Movement::Plan {
            from: at(3, 3),
            to: at(40, 40),
            distance: MovementDistance::Near
        })
    );
    assert_eq!(m, memory(MinionType::SimpleWorker, Action::Idle, None));
}

#[test]
fn idle_creep_without_controller_stays_put() {
    let mut r = room();
    r.controller = None;
    let mut m = memory(MinionType::SimpleWorker, Action::Idle, None);
    m.current_path = Some(some_path());
    assert_eq!(Fallback::idle(&creep("w", 3, 3, 0, 50), &r, &mut m), None);
    assert_eq!(m.current_path, Some(some_path()));
}

#[test]
fn run_creep_goes_by_the_task() {
    let c = creep("x", 3, 3, 10, 40);
    let mut idle = memory(MinionType::Harvester, Action::Idle, Some(ActionStep::Harvesting));
    assert_eq!(
        Minions::run_creep(&c, &room(), &mut idle),
        Intent::Travel(Movement::Plan {
            from: at(3, 3),
            to: at(40, 40),
            distance: MovementDistance::Near
        })
    );
    assert_eq!(idle.current_task, Action::Idle);
    let mut h = harvester(Some(ActionStep::Harvesting));
    assert_eq!(Minions::run_creep(&c, &room(), &mut h), Intent::Harvest(source(1, 10, 10)));
    let mut u = upgrader(Some(ActionStep::Upgrading));
    assert_eq!(Minions::run_creep(&c, &room(), &mut u), Intent::Upgrade(the_controller()));
    let mut d = memory(MinionType::Harvester, Action::Deposit(800), Some(ActionStep::Depositing));
    assert_eq!(Minions::run_creep(&c, &room(), &mut d), Intent::Transfer(the_spawn()));
}

#[test]
fn run_creep_of_an_idle_creep_without_controller_rests() {
    let mut r = room();
    r.controller = None;
    let mut idle = memory(MinionType::SimpleWorker, Action::Idle, None);
    assert_eq!(Minions::run_creep(&creep("x", 3, 3, 0, 50), &r, &mut idle), Intent::Rest);
}

#[test]
fn finish_creep_goes_by_the_task() {
    let c = creep("x", 3, 3, 10, 40);
    let mut h = harvester(Some(ActionStep::Harvesting));
    assert_eq!(
        Minions::finish_creep(&c, Intent::Harvest(source(1, 10, 10)), ReturnCode::Full, &mut h),
        None
    );
    assert_eq!(h.current_task_step, Some(ActionStep::Panic(ReturnCode::Full)));
    let mut u = upgrader(Some(ActionStep::Harvesting));
    assert_eq!(
        Minions::finish_creep(&c, Intent::Harvest(source(1, 10, 10)), ReturnCode::Full, &mut u),
        None
    );
    assert_eq!(u.current_task_step, Some(ActionStep::Upgrading));
    let mut idle = memory(MinionType::SimpleWorker, Action::Idle, None);
    assert_eq!(
        Minions::finish_creep(&c, Intent::Harvest(source(1, 10, 10)), ReturnCode::Busy, &mut idle),
        None
    );
    assert_eq!(idle, memory(MinionType::SimpleWorker, Action::Idle, None));
}

#[test]
fn an_unexpected_code_means_panic_now_and_harvesting_one_tick_later() {
    let c = creep("x", 9, 10, 10, 40);
    let r = room();
    let mut h = harvester(Some(ActionStep::Harvesting));
    let attempt = Minions::run_creep(&c, &r, &mut h);
    assert_eq!(Minions::finish_creep(&c, attempt, ReturnCode::GclNotEnough, &mut h), None);
    assert_eq!(h.current_task_step, Some(ActionStep::Panic(ReturnCode::GclNotEnough)));
    assert_eq!(Minions::run_creep(&c, &r, &mut h), Intent::Say(ReturnCode::GclNotEnough));
    assert_eq!(h.current_task_step, Some(ActionStep::Harvesting));

    let full = creep("y", 39, 40, 50, 0);
    let mut u = upgrader(Some(ActionStep::Upgrading));
    let attempt = Minions::run_creep(&full, &r, &mut u);
    assert_eq!(attempt, Intent::Upgrade(the_controller()));
    assert_eq!(Minions::finish_creep(&full, attempt, ReturnCode::RclNotEnough, &mut u), None);
    assert_eq!(u.current_task_step, Some(ActionStep::Panic(ReturnCode::RclNotEnough)));
    assert_eq!(u.current_task, Action::Upgrade(900));
    assert_eq!(Minions::run_creep(&full, &r, &mut u), Intent::Say(ReturnCode::RclNotEnough));
    assert_eq!(u.current_task_step, Some(ActionStep::Harvesting));
}

#[test]
fn positions_are_near_within_one_tile_of_the_same_room() {
    assert!(at(10, 10).is_near_to(at(10, 10)));
    assert!(at(10, 10).is_near_to(at(11, 9)));
    assert!(at(0, 0).is_near_to(at(1, 1)));
    assert!(!at(10, 10).is_near_to(at(12, 10)));
    assert!(!at(10, 10).is_near_to(at(10, 8)));
    assert!(!at(10, 10).is_near_to(Position { x: 10, y: 10, room: ROOM + 1 }));
    assert!(!at(0, 0).is_near_to(at(255, 0)));
}

#[test]
fn positions_are_equal_tile_for_tile() {
    assert!(at(10, 10).is_equal_to(at(10, 10)));
    assert!(!at(10, 10).is_equal_to(at(10, 11)));
    assert!(!at(10, 10).is_equal_to(at(11, 10)));
    assert!(!at(10, 10).is_equal_to(Position { x: 10, y: 10, room: ROOM + 1 }));
}
