use colony_core::action::ActionStep;
use colony_core::action::Intent;
use colony_core::game_loop;
use colony_core::mem::enter_creep;
use colony_core::mem::find_creep;
use colony_core::mem::find_room_tasks;
use colony_core::mem::holds_task;
use colony_core::mem::queue_well_formed;
use colony_core::mem::ControllerMemory;
use colony_core::mem::CreepEntry;
use colony_core::mem::CreepMemory;
use colony_core::mem::GameMemory;
use colony_core::mem::RoomEntry;
use colony_core::mem::RoomMemory;
use colony_core::mem::RoomTasks;
use colony_core::mem::StructureEntry;
use colony_core::mem::StructureMemory;
use colony_core::minion::MinionType;
use colony_core::minion::Minions;
use colony_core::reset_memory;
use colony_core::room::RoomRectangle;
use colony_core::retrieve_memory;
use colony_core::task::harvest::Harvest;
use colony_core::task::names_distinct;
use colony_core::task::upgrade::Upgrade;
use colony_core::task::Action;
use colony_core::task::Task;
use colony_core::task::TaskProps;
use colony_core::task::TaskStyle;
use colony_core::task::WorkableTask;
use colony_core::util::screeps::Screeps;
use colony_core::world::is_alive;
use colony_core::world::Controller;
use colony_core::world::Creep;
use colony_core::world::Position;
use colony_core::world::Room;
use colony_core::world::Source;

fn at(x: u8, y: u8) -> Position {
    Position { x, y, room: 1 }
}

fn creep(name: &str) -> Creep {
    Creep { name: name.to_string(), pos: at(5, 5), free_capacity: 50, used_capacity: 0, spawning: false }
}

fn record(role: MinionType, task: Action) -> CreepMemory {
    CreepMemory {
        worker_type: role,
        current_path: None,
        last_position: None,
        current_task: task,
        current_task_step: None,
    }
}

fn entry(name: &str, role: MinionType, task: Action) -> CreepEntry {
    CreepEntry { name: name.to_string(), memory: record(role, task) }
}

fn names(list: &[&str]) -> Vec<String> {
    list.iter().map(|name| name.to_string()).collect()
}

fn harvest(source_id: u128, capacity: usize, workers: &[&str]) -> Harvest {
    Harvest {
        props: TaskProps {
            target: Some(source_id),
            style: TaskStyle::Perpetual,
            min_room_level: 1,
            worked_by: names(workers),
        },
        source_id,
        spaces_available: capacity,
    }
}

fn upgrade(controller_id: u128, workers: &[&str]) -> Upgrade {
    Upgrade {
        props: TaskProps {
            target: Some(controller_id),
            style: TaskStyle::Perpetual,
            min_room_level: 1,
            worked_by: names(workers),
        },
        is_harvesting: false,
    }
}

fn memory_with(creeps: Vec<CreepEntry>, queues: Vec<RoomTasks>) -> GameMemory {
    GameMemory {
        last_managers_tick: 40,
        needs_rebuild: false,
        creeps,
        rooms: vec![],
        structure_memories: vec![],
        room_task_queues: queues,
    }
}

#[test]
fn default_memory_is_blank_and_asks_for_the_managers() {
    let memory = GameMemory::default();
    assert!(memory.needs_rebuild);
    assert_eq!(memory.last_managers_tick, 0);
    assert!(memory.creeps.is_empty());
    assert!(memory.rooms.is_empty());
    assert!(memory.structure_memories.is_empty());
    assert!(memory.room_task_queues.is_empty());
    assert!(memory.is_well_formed());
}

#[test]
fn reset_memory_is_the_default_memory() {
    assert_eq!(reset_memory(), GameMemory::default());
}

#[test]
fn default_creep_memory_is_an_idle_simple_worker() {
    assert_eq!(CreepMemory::default(), record(MinionType::SimpleWorker, Action::Idle));
}

#[test]
fn default_room_memory_is_at_level_one() {
    assert_eq!(RoomMemory::default(), RoomMemory { controller_level: 1 });
}

#[test]
fn retrieve_memory_takes_a_well_formed_memory_as_it_is() {
    let mut stored = memory_with(
        vec![entry("a", MinionType::Harvester, Action::Harvest(1))],
        vec![RoomTasks { room: 1, upgrader: vec![upgrade(9, &[])], harvester: vec![harvest(1, 3, &["a"])] }],
    );
    stored.rooms = vec![RoomEntry { name: 1, memory: RoomMemory { controller_level: 3 } }];
    stored.structure_memories = vec![
        StructureEntry { id: 5, memory: StructureMemory::Spawner(2) },
        StructureEntry {
            id: 6,
            memory: StructureMemory::Controller(ControllerMemory { controller_level: 2 }),
        },
        StructureEntry { id: 7, memory: StructureMemory::Empty },
    ];
    stored.creeps[0].memory.current_task_step = Some(ActionStep::Depositing);
    assert_eq!(retrieve_memory(Some(stored.clone())), stored);
}

#[test]
fn retrieve_memory_keeps_the_flag_of_what_was_stored() {
    let mut stored = memory_with(vec![], vec![]);
    stored.needs_rebuild = true;
    assert!(retrieve_memory(Some(stored)).needs_rebuild);
    let stored = memory_with(vec![], vec![]);
    assert!(!retrieve_memory(Some(stored)).needs_rebuild);
}

#[test]
fn retrieve_memory_starts_from_nothing_where_nothing_was_read() {
    assert_eq!(retrieve_memory(None), GameMemory::default());
}

#[test]
fn retrieve_memory_starts_from_nothing_where_a_creep_has_two_records() {
    let stored = memory_with(
        vec![
            entry("a", MinionType::Harvester, Action::Idle),
            entry("a", MinionType::Upgrader, Action::Idle),
        ],
        vec![],
    );
    assert!(!stored.is_well_formed());
    assert_eq!(retrieve_memory(Some(stored)), GameMemory::default());
}

#[test]
fn retrieve_memory_starts_from_nothing_where_a_task_is_overbooked() {
    let stored = memory_with(
        vec![],
        vec![RoomTasks { room: 1, upgrader: vec![], harvester: vec![harvest(1, 1, &["a", "b"])] }],
    );
    assert_eq!(retrieve_memory(Some(stored)), GameMemory::default());
}

#[test]
fn memory_is_not_well_formed_with_a_room_queued_twice() {
    let memory = memory_with(vec![], vec![RoomTasks::new(4), RoomTasks::new(5), RoomTasks::new(4)]);
    assert!(!memory.is_well_formed());
    let memory = memory_with(vec![], vec![RoomTasks::new(4), RoomTasks::new(5)]);
    assert!(memory.is_well_formed());
}

#[test]
fn queues_are_not_well_formed_with_a_target_queued_twice() {
    assert!(queue_well_formed(&vec![harvest(1, 3, &[]), harvest(2, 3, &[])]));
    assert!(!queue_well_formed(&vec![harvest(1, 3, &[]), harvest(2, 3, &[]), harvest(1, 2, &[])]));
    assert!(!queue_well_formed(&vec![upgrade(9, &[]), upgrade(9, &["a"])]));
    let tasks = RoomTasks { room: 1, upgrader: vec![upgrade(9, &[]), upgrade(9, &[])], harvester: vec![] };
    assert!(!tasks.is_well_formed());
}

#[test]
fn harvest_task_is_well_formed_only_within_its_capacity() {
    assert!(harvest(1, 2, &["a", "b"]).is_well_formed());
    assert!(!harvest(1, 2, &["a", "b", "c"]).is_well_formed());
    assert!(!harvest(1, 3, &["a", "b", "a"]).is_well_formed());
    assert!(!harvest(1, 9, &[]).is_well_formed());
    let mut off = harvest(1, 2, &[]);
    off.props.target = Some(2);
    assert!(!off.is_well_formed());
    let mut off = harvest(1, 2, &[]);
    off.props.target = None;
    assert!(!off.is_well_formed());
    let mut off = harvest(1, 2, &[]);
    off.props.style = TaskStyle::Once;
    assert!(!off.is_well_formed());
    let mut off = harvest(1, 2, &[]);
    off.props.min_room_level = 2;
    assert!(!off.is_well_formed());
}

#[test]
fn upgrade_task_is_well_formed_only_within_its_capacity() {
    assert!(upgrade(9, &["a", "b", "c", "d"]).is_well_formed());
    assert!(!upgrade(9, &["a", "b", "c", "d", "e"]).is_well_formed());
    assert!(!upgrade(9, &["a", "a"]).is_well_formed());
    let mut off = upgrade(9, &[]);
    off.props.target = None;
    assert!(!off.is_well_formed());
    let mut off = upgrade(9, &[]);
    off.is_harvesting = true;
    assert!(!off.is_well_formed());
}

#[test]
fn names_distinct_finds_a_name_that_occurs_twice() {
    assert!(names_distinct(&names(&[])));
    assert!(names_distinct(&names(&["a", "b", "c"])));
    assert!(!names_distinct(&names(&["a", "b", "a"])));
    assert!(!names_distinct(&names(&["a", "b", "b"])));
}

#[test]
fn find_creep_gives_the_place_of_the_record() {
    let table = vec![
        entry("a", MinionType::Harvester, Action::Idle),
        entry("b", MinionType::Upgrader, Action::Idle),
    ];
    assert_eq!(find_creep(&table, &"a".to_string()), 0);
    assert_eq!(find_creep(&table, &"b".to_string()), 1);
    assert_eq!(find_creep(&table, &"c".to_string()), 2);
    assert_eq!(find_creep(&vec![], &"a".to_string()), 0);
}

#[test]
fn enter_creep_adds_a_blank_record_only_for_a_new_creep() {
    let mut table = vec![entry("a", MinionType::Harvester, Action::Harvest(1))];
    assert_eq!(enter_creep(&mut table, &"a".to_string()), 0);
    assert_eq!(table, vec![entry("a", MinionType::Harvester, Action::Harvest(1))]);
    assert_eq!(enter_creep(&mut table, &"b".to_string()), 1);
    assert_eq!(
        table,
        vec![
            entry("a", MinionType::Harvester, Action::Harvest(1)),
            entry("b", MinionType::SimpleWorker, Action::Idle),
        ]
    );
}

#[test]
fn holds_task_asks_the_record() {
    let table = vec![
        entry("a", MinionType::Harvester, Action::Harvest(1)),
        entry("b", MinionType::Upgrader, Action::Idle),
    ];
    assert!(holds_task(&table, &"a".to_string(), Action::Harvest(1)));
    assert!(!holds_task(&table, &"a".to_string(), Action::Harvest(2)));
    assert!(!holds_task(&table, &"a".to_string(), Action::Upgrade(1)));
    assert!(holds_task(&table, &"b".to_string(), Action::Idle));
    assert!(!holds_task(&table, &"c".to_string(), Action::Idle));
}

#[test]
fn find_room_tasks_gives_the_place_of_the_queues() {
    let queues = vec![RoomTasks::new(4), RoomTasks::new(9)];
    assert_eq!(find_room_tasks(&queues, 4), 0);
    assert_eq!(find_room_tasks(&queues, 9), 1);
    assert_eq!(find_room_tasks(&queues, 5), 2);
}

#[test]
fn new_room_tasks_are_empty() {
    let tasks = RoomTasks::new(12);
    assert_eq!(tasks, RoomTasks { room: 12, upgrader: vec![], harvester: vec![] });
    assert!(tasks.is_well_formed());
}

#[test]
fn includes_finds_a_worker_by_name() {
    let props = harvest(1, 3, &["a", "b"]).props;
    assert!(props.includes(&"a".to_string()));
    assert!(props.includes(&"b".to_string()));
    assert!(!props.includes(&"c".to_string()));
    assert!(!props.includes(&"".to_string()));
    assert!(!TaskProps::default().includes(&"a".to_string()));
}

#[test]
fn default_props_are_a_single_run_without_target() {
    let props = TaskProps::default();
    assert_eq!(props.target, None);
    assert_eq!(props.style, TaskStyle::Once);
    assert_eq!(props.min_room_level, 1);
    assert!(props.worked_by.is_empty());
}

#[test]
fn clean_up_workers_keeps_who_still_holds_the_task() {
    let table = vec![
        entry("a", MinionType::Harvester, Action::Harvest(1)),
        entry("b", MinionType::Harvester, Action::Idle),
        entry("c", MinionType::Harvester, Action::Harvest(2)),
        entry("d", MinionType::Harvester, Action::Harvest(1)),
    ];
    let mut props = harvest(1, 8, &["d", "gone", "b", "a", "c"]).props;
    props.clean_up_workers(&table, Action::Harvest(1));
    assert_eq!(props.worked_by, names(&["d", "a"]));
    assert_eq!(props.target, Some(1));
    assert_eq!(props.style, TaskStyle::Perpetual);
    assert_eq!(props.min_room_level, 1);
}

#[test]
fn clean_up_workers_can_leave_nobody() {
    let mut props = harvest(1, 8, &["a", "b"]).props;
    props.clean_up_workers(&vec![], Action::Harvest(1));
    assert!(props.worked_by.is_empty());
}

#[test]
fn release_workers_goes_by_the_target_of_the_task() {
    let table = vec![
        entry("a", MinionType::Harvester, Action::Harvest(1)),
        entry("b", MinionType::Harvester, Action::Harvest(2)),
        entry("u", MinionType::Upgrader, Action::Upgrade(9)),
        entry("v", MinionType::Upgrader, Action::Upgrade(8)),
    ];
    let mut task = harvest(2, 8, &["a", "b"]);
    task.release_workers(&table);
    assert_eq!(task, harvest(2, 8, &["b"]));
    let mut task = upgrade(9, &["v", "u", "a"]);
    task.release_workers(&table);
    assert_eq!(task, upgrade(9, &["u"]));
}

#[test]
fn for_source_makes_an_empty_task_for_the_source() {
    let task = Harvest::for_source(&Source { id: 31, pos: at(3, 3) }, 5);
    assert_eq!(task, harvest(31, 5, &[]));
    assert!(task.is_well_formed());
}

#[test]
fn harvest_task_answers_for_itself() {
    let task = harvest(31, 2, &["a"]);
    assert_eq!(task.get_target(), Some(31));
    assert_eq!(task.get_action(), Action::Harvest(31));
    assert_eq!(task.get_workable_name(), WorkableTask::Harvest);
    assert_eq!(task.needed_type(), MinionType::Harvester);
    assert!(!task.is_finished());
    assert!(task.needs_creeps());
    assert_eq!(task.get_props(), &task.props);
    assert!(!harvest(31, 2, &["a", "b"]).needs_creeps());
    assert!(!harvest(31, 0, &[]).needs_creeps());
}

#[test]
fn upgrade_task_answers_for_itself() {
    let task = upgrade(9, &["a", "b", "c"]);
    assert_eq!(task.get_target(), Some(9));
    assert_eq!(task.get_action(), Action::Upgrade(9));
    assert_eq!(task.get_workable_name(), WorkableTask::Upgrade);
    assert_eq!(task.needed_type(), MinionType::Upgrader);
    assert!(!task.is_finished());
    assert!(task.needs_creeps());
    assert_eq!(task.get_props(), &task.props);
    assert!(!upgrade(9, &["a", "b", "c", "d"]).needs_creeps());
}

#[test]
fn assign_creep_adds_the_creep_at_the_end() {
    let mut task = harvest(31, 3, &["a"]);
    task.assign_creep(&creep("b"));
    assert_eq!(task, harvest(31, 3, &["a", "b"]));
    let mut task = upgrade(9, &[]);
    task.assign_creep(&creep("u"));
    assert_eq!(task, upgrade(9, &["u"]));
}

#[test]
fn minion_types_have_their_words() {
    assert_eq!(MinionType::SimpleWorker.to_string(), "Worker");
    assert_eq!(MinionType::Upgrader.to_string(), "Upgrader");
    assert_eq!(MinionType::Harvester.to_string(), "Harvester");
    assert_eq!(MinionType::SimpleWorker.label(), "Worker");
    assert_eq!(MinionType::Upgrader.label(), "Upgrader");
    assert_eq!(MinionType::Harvester.label(), "Harvester");
}

#[test]
fn is_alive_looks_for_the_name_among_the_creeps() {
    let world = vec![creep("a"), creep("b")];
    assert!(is_alive(&world, &"a".to_string()));
    assert!(is_alive(&world, &"b".to_string()));
    assert!(!is_alive(&world, &"c".to_string()));
    assert!(!is_alive(&vec![], &"a".to_string()));
}

#[test]
fn clean_up_dead_creeps_forgets_who_is_gone() {
    let mut memory = memory_with(
        vec![
            entry("a", MinionType::Harvester, Action::Harvest(1)),
            entry("dead", MinionType::Harvester, Action::Harvest(1)),
            entry("b", MinionType::Upgrader, Action::Idle),
            entry("gone", MinionType::SimpleWorker, Action::Idle),
        ],
        vec![RoomTasks { room: 1, upgrader: vec![], harvester: vec![harvest(1, 3, &["a", "dead"])] }],
    );
    let before = memory.clone();
    Minions::clean_up_dead_creeps(&mut memory, &vec![creep("b"), creep("new"), creep("a")]);
    assert_eq!(
        memory.creeps,
        vec![
            entry("a", MinionType::Harvester, Action::Harvest(1)),
            entry("b", MinionType::Upgrader, Action::Idle),
        ]
    );
    assert_eq!(memory.room_task_queues, before.room_task_queues);
    assert_eq!(memory.last_managers_tick, before.last_managers_tick);
    assert_eq!(memory.needs_rebuild, before.needs_rebuild);
}

#[test]
fn clean_up_dead_creeps_in_an_empty_world_forgets_everyone() {
    let mut memory = memory_with(vec![entry("a", MinionType::Harvester, Action::Idle)], vec![]);
    Minions::clean_up_dead_creeps(&mut memory, &vec![]);
    assert!(memory.creeps.is_empty());
}

#[test]
fn get_idle_screeps_lists_creeps_without_record_or_task() {
    let memory = memory_with(
        vec![
            entry("busy", MinionType::Harvester, Action::Harvest(1)),
            entry("free", MinionType::Harvester, Action::Idle),
        ],
        vec![],
    );
    let world = vec![creep("free"), creep("busy"), creep("unknown"), creep("free")];
    assert_eq!(Screeps::get_idle_screeps(&memory, &world), vec![0, 2, 3]);
    assert_eq!(Screeps::get_idle_screeps(&memory, &vec![]), Vec::<usize>::new());
}

#[test]
fn get_screeps_doing_lists_the_records_with_the_task() {
    let memory = memory_with(
        vec![
            entry("a", MinionType::Harvester, Action::Harvest(1)),
            entry("b", MinionType::Harvester, Action::Idle),
            entry("c", MinionType::Harvester, Action::Harvest(2)),
            entry("d", MinionType::Harvester, Action::Harvest(1)),
        ],
        vec![],
    );
    assert_eq!(Screeps::get_screeps_doing(Action::Harvest(1), &memory), vec![0, 3]);
    assert_eq!(Screeps::get_screeps_doing(Action::Idle, &memory), vec![1]);
    assert_eq!(Screeps::get_screeps_doing(Action::Upgrade(1), &memory), Vec::<usize>::new());
}

#[test]
fn game_loop_on_an_empty_world_only_notes_the_tick() {
    let mut memory = GameMemory::default();
    let commands = game_loop(&mut memory, &vec![], &vec![], 5);
    assert!(commands.orders.is_empty());
    assert!(commands.notices.is_empty());
    assert!(commands.intents.is_empty());
    assert_eq!(memory.last_managers_tick, 5);
    assert!(!memory.needs_rebuild);
    assert!(memory.creeps.is_empty());
    assert!(memory.room_task_queues.is_empty());
}

#[test]
fn set_target_points_the_task_elsewhere_and_keeps_the_workers() {
    let mut task = harvest(31, 2, &["a"]);
    task.set_target(32);
    assert_eq!(task, harvest(32, 2, &["a"]));
    assert!(task.is_well_formed());
    let mut task = upgrade(9, &["u", "v"]);
    task.set_target(10);
    assert_eq!(task, upgrade(10, &["u", "v"]));
    assert_eq!(task.get_action(), Action::Upgrade(10));
}

#[test]
fn set_props_replaces_what_the_task_carries() {
    let mut task = harvest(31, 2, &["a"]);
    let props = harvest(31, 5, &["x", "y"]).props;
    task.set_props(props.clone());
    assert_eq!(task.props, props);
    assert_eq!(task.source_id, 31);
    assert_eq!(task.spaces_available, 2);
    let mut task = upgrade(9, &[]);
    task.set_props(TaskProps::default());
    assert_eq!(task.props, TaskProps::default());
    assert!(!task.is_well_formed());
}

#[test]
fn run_of_a_task_is_the_turn_of_its_worker() {
    let room = Room {
        name: 1,
        terrain: RoomRectangle::default(),
        sources: vec![Source { id: 31, pos: at(9, 9) }],
        controller: Some(Controller { id: 9, pos: at(20, 20), level: 1 }),
        spawn: None,
        extensions: 0,
        extension_sites: 0,
    };
    let mut worker = creep("a");
    worker.used_capacity = 50;
    worker.free_capacity = 0;
    let mut memory = record(MinionType::Upgrader, Action::Upgrade(9));
    memory.current_task_step = Some(ActionStep::Upgrading);
    let intent = upgrade(9, &["a"]).run(&worker, &room, &mut memory);
    assert_eq!(intent, Intent::Upgrade(Controller { id: 9, pos: at(20, 20), level: 1 }));
    let unset = Upgrade { props: TaskProps::default(), is_harvesting: false };
    assert_eq!(
        unset.run(&worker, &room, &mut memory),
        Intent::Upgrade(Controller { id: 9, pos: at(20, 20), level: 1 })
    );
    let mut bare = room.clone();
    bare.controller = None;
    let mut empty = creep("a");
    empty.used_capacity = 0;
    for task in [upgrade(9, &["a"]), Upgrade { props: TaskProps::default(), is_harvesting: false }] {
        let before = task.clone();
        let mut memory = record(MinionType::Upgrader, Action::Upgrade(9));
        memory.current_task_step = Some(ActionStep::Upgrading);
        assert_eq!(task.run(&empty, &bare, &mut memory), Intent::Rest);
        assert_eq!(memory.current_task_step, Some(ActionStep::Harvesting));
        assert_eq!(task, before);
    }
    let mut memory = record(MinionType::Harvester, Action::Harvest(31));
    memory.current_task_step = Some(ActionStep::Harvesting);
    let hungry = creep("b");
    let intent = harvest(31, 2, &["b"]).run(&hungry, &room, &mut memory);
    assert_eq!(intent, Intent::Harvest(Source { id: 31, pos: at(9, 9) }));
}

#[test]
fn upgrade_task_without_target_answers_as_no_task() {
    let unset = Upgrade { props: TaskProps::default(), is_harvesting: false };
    assert_eq!(unset.get_target(), None);
    assert_eq!(unset.get_action(), Action::Idle);
    assert_eq!(unset.get_workable_name(), WorkableTask::Idle);
    assert_eq!(unset.needed_type(), MinionType::SimpleWorker);
    assert!(unset.needs_creeps());
    assert!(!unset.is_well_formed());
}

#[test]
fn memory_is_not_well_formed_with_a_target_queued_in_two_rooms() {
    let apart = memory_with(
        vec![],
        vec![
            RoomTasks { room: 1, upgrader: vec![upgrade(9, &[])], harvester: vec![harvest(1, 3, &[])] },
            RoomTasks { room: 2, upgrader: vec![upgrade(8, &[])], harvester: vec![harvest(2, 3, &[])] },
        ],
    );
    assert!(apart.is_well_formed());
    let twice = memory_with(
        vec![],
        vec![
            RoomTasks { room: 1, upgrader: vec![], harvester: vec![harvest(1, 3, &[]), harvest(2, 1, &[])] },
            RoomTasks { room: 2, upgrader: vec![], harvester: vec![harvest(3, 3, &[])] },
            RoomTasks { room: 3, upgrader: vec![], harvester: vec![harvest(4, 3, &[]), harvest(2, 3, &[])] },
        ],
    );
    assert!(!twice.is_well_formed());
    assert_eq!(retrieve_memory(Some(twice)), GameMemory::default());
    let controllers = memory_with(
        vec![],
        vec![
            RoomTasks { room: 1, upgrader: vec![upgrade(9, &[])], harvester: vec![] },
            RoomTasks { room: 2, upgrader: vec![upgrade(9, &[])], harvester: vec![] },
        ],
    );
    assert!(!controllers.is_well_formed());
    let same_number = memory_with(
        vec![],
        vec![
            RoomTasks { room: 1, upgrader: vec![upgrade(9, &[])], harvester: vec![] },
            RoomTasks { room: 2, upgrader: vec![], harvester: vec![harvest(9, 3, &[])] },
        ],
    );
    assert!(same_number.is_well_formed());
}
