use bracket_geometry::prelude::Point as OutsidePoint;
use bracket_pathfinding::prelude::{field_of_view, Algorithm2D, BaseMap};
use rainbow_rogue::ecs::components::{CombatStats, IntentStep};
use rainbow_rogue::ecs::resources::MovementContext;
use rainbow_rogue::ecs::systems::FieldOfView;
use rainbow_rogue::game::run::calculate_log_start;
use rainbow_rogue::game::{Command, RainbowRogueState, RunState, RunStats, TickReport, Transition};
use rainbow_rogue::geometry::Point;
use rainbow_rogue::map::{FloorId, Tile, World, SPECTRUM};

struct Grid<'a> {
    ctx: &'a MovementContext,
}

impl<'a> BaseMap for Grid<'a> {
    fn is_opaque(&self, idx: usize) -> bool {
        let p = self.index_to_point2d(idx);
        self.ctx.blocks_sight(Point::new(p.x, p.y))
    }
}

impl<'a> Algorithm2D for Grid<'a> {
    fn dimensions(&self) -> OutsidePoint {
        OutsidePoint::new(self.ctx.width, self.ctx.height)
    }

    fn in_bounds(&self, point: OutsidePoint) -> bool {
        self.ctx.in_bounds(Point::new(point.x, point.y))
    }
}

struct Shadowcast;

impl FieldOfView for Shadowcast {
    fn field_of_view(&self, movement: &MovementContext, origin: Point, radius: i32) -> Vec<Point> {
        field_of_view(OutsidePoint::new(origin.x, origin.y), radius, &Grid { ctx: movement })
            .into_iter()
            .map(|p| Point::new(p.x, p.y))
            .collect()
    }
}

fn fresh() -> RainbowRogueState {
    RainbowRogueState::new(RunStats::default())
}

/// A run in which the player is alone on the red plane of the surface floor.
fn lonely() -> RainbowRogueState {
    let mut state = fresh();
    state.ecs.entities.retain(|r| {
        r.player.is_some() || r.position.map_or(true, |p| p.world != World::Red)
    });
    state
}

fn free_step(state: &RainbowRogueState) -> (i32, i32) {
    let here = state.ecs.player_point();
    for (dx, dy) in [(1, 0), (-1, 0), (0, 1), (0, -1)] {
        let p = Point::new(here.x + dx, here.y + dy);
        if state.dungeon.is_walkable(state.active_floor, state.active_world, p)
            && state.ecs.entity_at(p, state.active_floor, state.active_world).is_none()
        {
            return (dx, dy);
        }
    }
    panic!("the player is boxed in");
}

#[test]
fn scheduler_transitions() {
    assert_eq!(
        RunState::AwaitingInput.step(false, true),
        Transition { next: RunState::AwaitingInput, pass: false, done: true }
    );
    assert_eq!(
        RunState::AwaitingInput.step(true, false),
        Transition { next: RunState::PlayerTurn, pass: false, done: false }
    );
    for acted in [false, true] {
        for pending in [false, true] {
            assert_eq!(
                RunState::PlayerTurn.step(acted, pending),
                Transition { next: RunState::MonsterTurn, pass: true, done: false }
            );
            assert_eq!(
                RunState::MonsterTurn.step(acted, pending),
                Transition { next: RunState::AwaitingInput, pass: pending, done: true }
            );
        }
    }
}

#[test]
fn scheduler_runs_two_passes_for_a_move_and_a_pending_monster() {
    let mut state = RunState::AwaitingInput;
    let mut passes = 0;
    let mut order = Vec::new();
    let mut transitions = 0;
    loop {
        transitions += 1;
        assert!(transitions <= 4);
        let t = state.step(true, true);
        if t.pass {
            passes += 1;
            order.push(state);
        }
        state = t.next;
        if t.done {
            break;
        }
    }
    assert_eq!(passes, 2);
    assert_eq!(order, vec![RunState::PlayerTurn, RunState::MonsterTurn]);
    assert_eq!(state, RunState::AwaitingInput);
    assert_eq!(transitions, 3);
}

#[test]
fn tick_runs_two_passes_when_a_monster_holds_a_step() {
    let mut state = lonely();
    let (dx, dy) = free_step(&state);
    let other = state
        .ecs
        .entities
        .iter()
        .position(|r| r.monster_tag.is_some())
        .unwrap();
    state.ecs.entities[other].intent = Some(IntentStep { delta: Point::new(1, 0) });
    let from = state.ecs.player_point();
    let turn = state.ecs.turn;
    let report = state.tick(Some(Command::Step { dx, dy }), &Shadowcast);
    assert_eq!(
        report,
        TickReport { consumed_input: true, player_acted: true, monsters_acted: true, passes: 2 }
    );
    assert_eq!(state.ecs.turn, turn + 2);
    assert_eq!(state.run_state, RunState::AwaitingInput);
    assert_eq!(state.ecs.player_point(), Point::new(from.x + dx, from.y + dy));
    assert_eq!(state.frame, 1);
}

#[test]
fn tick_runs_one_pass_when_no_monster_holds_a_step() {
    let mut state = lonely();
    let (dx, dy) = free_step(&state);
    let from = state.ecs.player_point();
    let report = state.tick(Some(Command::Step { dx, dy }), &Shadowcast);
    assert_eq!(
        report,
        TickReport { consumed_input: true, player_acted: true, monsters_acted: false, passes: 1 }
    );
    assert_eq!(state.ecs.turn, 1);
    assert_eq!(state.run_state, RunState::AwaitingInput);
    let to = state.ecs.player_point();
    assert_eq!(to, Point::new(from.x + dx, from.y + dy));
    assert!(state.message_log.contains(&format!("Stepped to {},{} in Red", to.x, to.y)));
    assert!(state.message_log.iter().any(|l| l.starts_with("Glimpsed ") && l.ends_with(" new tiles in Red")));
    assert_eq!(state.last_player_point, Some(from));
    assert!(!state.needs_prime_tick);
    assert!(!state.visible_tiles.is_empty());
    let layer = state.dungeon.active_layer(FloorId(0), World::Red).unwrap();
    assert!(state.visible_tiles.iter().all(|p| layer.tile_at(*p).unwrap().revealed));
    let other = state.dungeon.active_layer(FloorId(0), World::Blue).unwrap();
    assert!(other.tiles.iter().all(|t| !t.revealed));
}

#[test]
fn tick_without_input_rests() {
    let mut state = fresh();
    let report = state.tick(None, &Shadowcast);
    assert_eq!(
        report,
        TickReport { consumed_input: true, player_acted: false, monsters_acted: false, passes: 0 }
    );
    assert_eq!(state.ecs.turn, 0);
    assert_eq!(state.frame, 0);
    let idle = state.tick(Some(Command::DumpState), &Shadowcast);
    assert_eq!(idle.passes, 0);
    let none = state.tick(Some(Command::Step { dx: 0, dy: 0 }), &Shadowcast);
    assert_eq!(none.passes, 0);
    let wait = state.tick(Some(Command::Wait), &Shadowcast);
    assert_eq!((wait.passes, wait.player_acted), (1, true));
    assert_eq!(state.frame, 1);
    let forced = state.tick(Some(Command::ForceTurn), &Shadowcast);
    assert_eq!((forced.passes, forced.player_acted), (1, true));
    assert_eq!(state.run_state, RunState::AwaitingInput);
}

#[test]
fn input_is_deferred_while_a_turn_is_under_way() {
    let mut state = lonely();
    state.run_state = RunState::PlayerTurn;
    let world = state.active_world;
    let report = state.tick(Some(Command::CycleWorld { delta: 1 }), &Shadowcast);
    assert_eq!(
        report,
        TickReport { consumed_input: false, player_acted: true, monsters_acted: false, passes: 1 }
    );
    assert_eq!(state.active_world, world);
    assert_eq!(state.run_state, RunState::AwaitingInput);
    state.run_state = RunState::MonsterTurn;
    let report = state.tick(Some(Command::CycleWorld { delta: 1 }), &Shadowcast);
    assert_eq!(
        report,
        TickReport { consumed_input: false, player_acted: false, monsters_acted: false, passes: 0 }
    );
    assert_eq!(state.active_world, world);
    assert_eq!(state.run_state, RunState::AwaitingInput);
}

#[test]
fn a_new_run_starts_on_the_surface() {
    let state = RainbowRogueState::new(RunStats { run_number: 4, best_depth: 9 });
    assert_eq!(state.active_world, World::Red);
    assert_eq!(state.active_floor, FloorId(0));
    assert_eq!(state.run_state, RunState::AwaitingInput);
    assert_eq!(state.run_stats, RunStats { run_number: 4, best_depth: 9 });
    assert_eq!(state.run_max_floor, 0);
    assert!(!state.is_dead && !state.quit_requested && state.needs_prime_tick);
    assert!(state.stats_changed);
    assert_eq!(state.frame, 0);
    assert_eq!(state.seeded_floors, [0u32].into_iter().collect());
    assert!(state.play_history.is_empty());
    assert_eq!(
        state.message_log,
        vec![
            "Red focus: Heat blooms amplify melee damage.".to_string(),
            "Orange focus: Chemical clouds respond to wind tunnels.".to_string(),
            "Yellow focus: Lens-prisms extend FOV and detect traps.".to_string(),
            "Green focus: Regrowth tiles slowly mend allies.".to_string(),
            "Blue focus: Stillwater grants crit bonuses to ranged.".to_string(),
            "Indigo focus: Mindstorms favor teleport talent rolls.".to_string(),
            "Violet focus: Curses thread through unseen resonance.".to_string(),
        ]
    );
    let spawn = state.dungeon.spawn_point(FloorId(0));
    assert_eq!(state.ecs.player_point(), spawn);
    assert_eq!(state.last_player_point, Some(spawn));
    assert_eq!(state.tile_under_player().unwrap().tag, Tile::TAG_STAIR_UP);
    assert_eq!(RunStats::default(), RunStats { run_number: 1, best_depth: 0 });
}

#[test]
fn the_first_floor_is_seeded_with_monsters() {
    let state = fresh();
    let monsters: Vec<_> = state.ecs.entities.iter().filter(|r| r.monster_tag.is_some()).collect();
    assert_eq!(monsters.len(), state.ecs.entities.len() - 1);
    for world in SPECTRUM.iter() {
        let here: Vec<_> = monsters
            .iter()
            .filter(|r| r.position.unwrap().world == *world)
            .collect();
        let walkable = state.dungeon.active_layer(FloorId(0), *world).unwrap().walkable_points();
        let target = (walkable.len() / 90).max(2).min(6);
        assert_eq!(here.len(), target);
        let names: Vec<&str> = rainbow_rogue::data::monsters::MonsterTemplate::for_world(*world)
            .iter()
            .map(|t| t.name)
            .collect();
        let mut taken = std::collections::HashSet::new();
        for m in here {
            let pos = m.position.unwrap();
            assert_eq!(pos.floor, FloorId(0));
            assert!(state.dungeon.is_walkable(FloorId(0), *world, pos.point));
            assert!(taken.insert((pos.point.x, pos.point.y)));
            assert!(names.contains(&m.monster.as_ref().unwrap().name.as_str()));
            assert!(!(pos.world == World::Red && pos.point == state.ecs.player_point()));
            let stats = m.stats.unwrap();
            assert_eq!(stats.hp, stats.max_hp);
        }
    }
    let again = fresh();
    let places = |s: &RainbowRogueState| -> Vec<(World, Point, String)> {
        s.ecs
            .entities
            .iter()
            .skip(1)
            .map(|r| {
                let p = r.position.unwrap();
                (p.world, p.point, r.monster.as_ref().unwrap().name.clone())
            })
            .collect()
    };
    assert_eq!(places(&state), places(&again));
    let mut twice = fresh();
    let count = twice.ecs.entities.len();
    twice.seed_floor_monsters(FloorId(0));
    assert_eq!(twice.ecs.entities.len(), count);
    assert_eq!(twice.seeded_floors, [0u32].into_iter().collect());
}

#[test]
fn every_plane_of_a_new_floor_gets_its_monsters() {
    let mut state = lonely();
    state.ecs.entities.retain(|r| r.player.is_some());
    let down = state.dungeon.floors[0].stairs_down()[0];
    state.ecs.set_player_position(down, FloorId(0), World::Red);
    for floor in 1..4u32 {
        assert!(state.shift_floor(1));
        assert_eq!(state.active_floor, FloorId(floor));
        for world in SPECTRUM.iter() {
            let walkable =
                state.dungeon.active_layer(FloorId(floor), *world).unwrap().walkable_points();
            assert!(walkable.len() >= 7);
            let wanted = (walkable.len() / 90).max(2).min(6);
            let here: Vec<Point> = state
                .ecs
                .entities
                .iter()
                .filter(|r| r.monster_tag.is_some())
                .filter_map(|r| r.position)
                .filter(|p| p.floor == FloorId(floor) && p.world == *world)
                .map(|p| p.point)
                .collect();
            assert_eq!(here.len(), wanted);
            let mut distinct = std::collections::HashSet::new();
            for p in here.iter() {
                assert!(walkable.contains(p));
                assert!(distinct.insert((p.x, p.y)));
                assert!(*p != state.ecs.player_point() || *world != World::Red);
            }
        }
        let before = state.ecs.entities.len();
        state.seed_floor_monsters(FloorId(floor));
        assert_eq!(state.ecs.entities.len(), before);
        let next_down = state.dungeon.floors[floor as usize].stairs_down()[0];
        state.ecs.entities.retain(|r| {
            r.player.is_some() || r.position.map_or(true, |p| p.point != next_down)
        });
        state.ecs.set_player_position(next_down, FloorId(floor), World::Red);
    }
}

#[test]
fn monsters_are_placed_as_the_generator_draws() {
    let state = fresh();
    let mut rng = bracket_random::prelude::RandomNumberGenerator::seeded(0xdead_beef ^ 0u64);
    let mut expected: Vec<(World, Point, &str)> = Vec::new();
    let player = state.ecs.player_point();
    for world in SPECTRUM.iter() {
        let layer = state.dungeon.active_layer(FloorId(0), *world).unwrap();
        let mut walkable = layer.walkable_points();
        let templates = rainbow_rogue::data::monsters::MonsterTemplate::for_world(*world);
        let spawn_target = (walkable.len() / 90).max(2).min(6);
        let mut spawned = 0;
        while spawned < spawn_target && !walkable.is_empty() {
            let idx = rng.range(0, walkable.len() as i32) as usize;
            let point = walkable.swap_remove(idx);
            if *world == World::Red && point == player {
                continue;
            }
            let template_idx = rng.range(0, templates.len() as i32) as usize;
            expected.push((*world, point, templates[template_idx].name));
            spawned += 1;
        }
    }
    let actual: Vec<(World, Point, &str)> = state
        .ecs
        .entities
        .iter()
        .skip(1)
        .map(|r| {
            let p = r.position.unwrap();
            (p.world, p.point, r.monster.as_ref().unwrap().name.as_str())
        })
        .collect();
    assert_eq!(actual, expected);
    let ids: Vec<u64> = state.ecs.entities.iter().map(|r| r.entity.id).collect();
    assert_eq!(ids, (0..state.ecs.entities.len() as u64).collect::<Vec<u64>>());
    let kinds: std::collections::HashSet<&str> = actual.iter().map(|a| a.2).collect();
    assert!(kinds.len() > 7);
}

#[test]
fn a_blocked_step_is_reported() {
    let mut state = lonely();
    let spawn = state.ecs.player_point();
    let layer = state.dungeon.active_layer_mut(FloorId(0), World::Red).unwrap();
    layer.set_tile(Point::new(spawn.x + 1, spawn.y), Tile::wall());
    let report = state.tick(Some(Command::Step { dx: 1, dy: 0 }), &Shadowcast);
    assert_eq!(report.passes, 1);
    assert_eq!(state.ecs.player_point(), spawn);
    assert!(state.message_log.contains(&format!("Blocked at {},{}", spawn.x + 1, spawn.y)));
    assert!(state.ecs.entities[0].intent.is_none());
    assert_eq!(state.last_move_attempt, None);
}

#[test]
fn stepping_onto_a_monster_is_a_blow() {
    let mut state = lonely();
    let spawn = state.ecs.player_point();
    let imp = rainbow_rogue::data::monsters::MonsterTemplate::for_world(World::Red)[0];
    state.ecs.spawn_monster(&imp, Point::new(spawn.x + 1, spawn.y), FloorId(0), World::Red);
    let count = state.ecs.entities.len();
    assert!(state.try_step(1, 0));
    assert_eq!(state.message_log[0], "You strike Ember Imp for 5");
    assert_eq!(state.last_move_attempt, None);
    assert!(state.ecs.entities[0].intent.is_none());
    assert_eq!(state.ecs.entities.len(), count);
    assert!(state.try_step(1, 0));
    assert_eq!(state.message_log[0], "Ember Imp collapses into specter dust.");
    assert_eq!(state.message_log[1], "You strike Ember Imp for 5");
    assert_eq!(state.ecs.entities.len(), count - 1);
    assert_eq!(state.ecs.entities[0].intent, Some(IntentStep { delta: Point::new(1, 0) }));
    assert_eq!(state.last_move_attempt, Some((spawn, Point::new(spawn.x + 1, spawn.y))));
    assert_eq!(
        &state.play_history[state.play_history.len() - 3..],
        &[
            "You strike Ember Imp for 5".to_string(),
            "You strike Ember Imp for 5".to_string(),
            "Ember Imp collapses into specter dust.".to_string()
        ]
    );
    assert!(!state.try_step(0, 0));
}

#[test]
fn the_message_log_keeps_the_newest_eight() {
    let mut state = fresh();
    for i in 0..3 {
        state.push_log_entry(format!("line {}", i));
    }
    assert_eq!(state.message_log.len(), 8);
    assert_eq!(state.message_log[0], "line 2");
    assert_eq!(state.message_log[2], "line 0");
    assert_eq!(state.message_log[3], "Red focus: Heat blooms amplify melee damage.");
    assert_eq!(state.message_log[7], "Blue focus: Stillwater grants crit bonuses to ranged.");
    assert_eq!(state.play_history, vec!["line 0".to_string(), "line 1".to_string(), "line 2".to_string()]);
}

#[test]
fn cycling_the_world_keeps_the_point() {
    let mut state = fresh();
    let spawn = state.ecs.player_point();
    let report = state.tick(Some(Command::CycleWorld { delta: -1 }), &Shadowcast);
    assert!(report.player_acted);
    assert_eq!(state.active_world, World::Violet);
    assert_eq!(state.behavior.focus_world, World::Violet);
    let pos = state.ecs.player_position();
    assert_eq!((pos.point, pos.floor, pos.world), (spawn, FloorId(0), World::Violet));
    assert!(state.play_history.contains(&"Shifted attunement to Violet on frame 0".to_string()));
    let color = state.ecs.entities[0].renderable.unwrap().color;
    assert_eq!((color.r, color.g, color.b), (193, 126, 255));
}

#[test]
fn stairs_refuse_without_the_right_footing() {
    let mut state = lonely();
    assert!(!state.shift_floor(0));
    assert!(!state.shift_floor(-1));
    assert_eq!(state.message_log[0], "You already stand on the surface anchor.");
    assert!(!state.shift_floor(1));
    assert_eq!(state.message_log[0], "Need to stand on a downward stair (>) to descend.");
    state.ecs.set_player_position(Point::new(-5, -5), FloorId(0), World::Red);
    assert!(!state.shift_floor(1));
    assert_eq!(state.message_log[0], "The void yawns beneath you; no stairs here.");
    assert_eq!(state.active_floor, FloorId(0));
    assert_eq!(state.dungeon.floors.len(), 1);
}

#[test]
fn descending_generates_and_seeds_the_next_floor() {
    let mut state = lonely();
    let down = state.dungeon.floors[0].stairs_down()[0];
    state.ecs.set_player_position(down, FloorId(0), World::Red);
    let before = state.ecs.entities.len();
    let report = state.tick(Some(Command::ShiftFloor { delta: 1 }), &Shadowcast);
    assert!(report.player_acted);
    assert_eq!(state.active_floor, FloorId(1));
    assert_eq!(state.dungeon.floors.len(), 2);
    assert_eq!(state.seeded_floors, [0u32, 1].into_iter().collect());
    assert!(state.ecs.entities.len() >= before + 14);
    assert!(state.ecs.entities.len() <= before + 42);
    let arrival = state.dungeon.floors[1].stairs_up()[0];
    let pos = state.ecs.player_position();
    assert_eq!((pos.point, pos.floor, pos.world), (arrival, FloorId(1), World::Red));
    assert!(state.play_history.contains(&"Floor 1 takes shape.".to_string()));
    assert!(state.play_history.contains(&"Descended to floor 1".to_string()));
    assert_eq!(state.run_max_floor, 1);
    assert_eq!(state.run_stats.best_depth, 1);
    assert!(!state.shift_floor(1));
    assert_eq!(state.message_log[0], "Need to stand on a downward stair (>) to descend.");
    state.ecs.entities.retain(|r| r.player.is_some());
    assert!(state.shift_floor(-1));
    assert_eq!(state.active_floor, FloorId(0));
    assert_eq!(state.message_log[0], "Ascended to floor 0");
    assert_eq!(state.ecs.player_point(), down);
    assert_eq!(state.dungeon.floors.len(), 2);
    assert_eq!(state.run_max_floor, 1);
    assert_eq!(state.run_stats.best_depth, 1);
    assert_eq!(state.seeded_floors, [0u32, 1].into_iter().collect());
}

#[test]
fn arrival_point_prefers_the_matching_stair() {
    let mut state = fresh();
    assert_eq!(state.arrival_point(true), state.dungeon.floors[0].stairs_up()[0]);
    assert_eq!(state.arrival_point(false), state.dungeon.floors[0].stairs_down()[0]);
    state.dungeon.floors[0].substrate.stairs_up.clear();
    assert_eq!(state.arrival_point(true), state.dungeon.floors[0].spawn_point());
}

#[test]
fn an_empty_slot_says_so() {
    let mut state = fresh();
    let report = state.tick(Some(Command::UseSlot { slot: 3 }), &Shadowcast);
    assert_eq!(report.passes, 0);
    assert_eq!(state.message_log[0], "Slot 4 is empty.");
    let used = state.tick(Some(Command::UseSlot { slot: 0 }), &Shadowcast);
    assert_eq!(used.passes, 1);
    assert!(state.play_history.contains(&"Activated Thermal Draft".to_string()));
    assert!(state.play_history.contains(&"No further vitality restored.".to_string()));
    assert_eq!(state.ecs.player_inventory().len(), 1);
}

#[test]
fn health_warning_goes_up_and_down() {
    let mut state = fresh();
    state.ecs.entities[0].stats = Some(CombatStats { max_hp: 20, hp: 6, power: 5, defense: 1 });
    state.check_health_warning();
    assert!(state.hp_alerted);
    assert_eq!(state.message_log[0], "!! Vitality critical !!");
    let lines = state.play_history.len();
    state.check_health_warning();
    assert_eq!(state.play_history.len(), lines);
    state.ecs.entities[0].stats = Some(CombatStats { max_hp: 20, hp: 10, power: 5, defense: 1 });
    state.check_health_warning();
    assert!(state.hp_alerted);
    state.ecs.entities[0].stats = Some(CombatStats { max_hp: 20, hp: 11, power: 5, defense: 1 });
    state.check_health_warning();
    assert!(!state.hp_alerted);
    assert_eq!(state.message_log[0], "Vitality stabilizes.");
    state.ecs.entities[0].stats = Some(CombatStats { max_hp: 20, hp: 7, power: 5, defense: 1 });
    state.check_health_warning();
    assert!(!state.hp_alerted);
    assert!(!state.is_dead);
}

#[test]
fn death_stops_everything_but_restart_and_quit() {
    let mut state = lonely();
    state.run_max_floor = 3;
    state.ecs.entities[0].stats = Some(CombatStats { max_hp: 20, hp: 0, power: 5, defense: 1 });
    let count = state.ecs.entities.len();
    state.tick(Some(Command::Wait), &Shadowcast);
    assert!(state.is_dead);
    assert_eq!(state.ecs.entities.len(), count);
    assert!(state.ecs.entities[0].player.is_some());
    assert_eq!(state.message_log[0], "Your spectrum shatters. Press R to restart or Esc to quit.");
    assert_eq!(state.run_stats.best_depth, 3);
    let spawn = state.ecs.player_point();
    let turn = state.ecs.turn;
    for cmd in [
        Command::Step { dx: 1, dy: 0 },
        Command::Wait,
        Command::CycleWorld { delta: 1 },
        Command::UseSlot { slot: 0 },
        Command::ShiftFloor { delta: 1 },
        Command::ForceTurn,
    ] {
        let report = state.tick(Some(cmd), &Shadowcast);
        assert_eq!(report.passes, 0);
        assert!(report.consumed_input);
    }
    assert_eq!(state.ecs.player_point(), spawn);
    assert_eq!(state.ecs.turn, turn);
    assert_eq!(state.active_world, World::Red);
    assert_eq!(state.ecs.player_inventory().len(), 2);
    state.tick(Some(Command::Quit), &Shadowcast);
    assert!(state.quit_requested);
    state.quit_requested = false;
    let report = state.tick(Some(Command::Reset), &Shadowcast);
    assert_eq!(report.passes, 0);
    assert!(!state.is_dead);
    assert_eq!(state.run_stats, RunStats { run_number: 2, best_depth: 3 });
    assert_eq!(state.run_max_floor, 0);
    assert_eq!(state.message_log[0], "Run 2 anchors. Best depth 3");
    assert_eq!(state.ecs.turn, 0);
    assert_eq!(hp(&state), 20);
}

fn hp(state: &RainbowRogueState) -> i32 {
    state.ecs.player_stats().unwrap().hp
}

#[test]
fn the_run_counter_stops_at_its_limit() {
    let mut state = RainbowRogueState::new(RunStats { run_number: u32::MAX, best_depth: 1 });
    state.reset_run();
    assert_eq!(state.run_stats, RunStats { run_number: u32::MAX, best_depth: 1 });
}

#[test]
fn wiping_the_run_stats_needs_two_requests() {
    let mut state = RainbowRogueState::new(RunStats { run_number: 7, best_depth: 5 });
    state.stats_changed = false;
    state.tick(Some(Command::Reset), &Shadowcast);
    assert_eq!(
        state.message_log[0],
        "Press R again within 5s to wipe run stats (resets run counter & best depth)."
    );
    assert_eq!(state.reset_prompt_frame, Some(0));
    assert_eq!(state.run_stats, RunStats { run_number: 7, best_depth: 5 });
    assert!(!state.stats_changed);
    state.frame = 300;
    state.tick(Some(Command::Reset), &Shadowcast);
    assert_eq!(state.message_log[0], "Run stats reset. Run counter back to 1.");
    assert_eq!(state.run_stats, RunStats { run_number: 1, best_depth: 0 });
    assert_eq!(state.reset_prompt_frame, None);
    assert!(state.stats_changed);
    let mut late = RainbowRogueState::new(RunStats { run_number: 7, best_depth: 5 });
    late.tick(Some(Command::Reset), &Shadowcast);
    late.frame = 301;
    late.tick(Some(Command::Reset), &Shadowcast);
    assert_eq!(late.run_stats, RunStats { run_number: 7, best_depth: 5 });
    assert_eq!(late.reset_prompt_frame, Some(301));
    late.frame = 700;
    late.tick(None, &Shadowcast);
    assert_eq!(late.reset_prompt_frame, None);
}

#[test]
fn record_depth_keeps_the_deepest() {
    let mut state = RainbowRogueState::new(RunStats { run_number: 1, best_depth: 4 });
    state.record_depth(FloorId(2));
    assert_eq!((state.run_max_floor, state.run_stats.best_depth), (2, 4));
    state.record_depth(FloorId(6));
    assert_eq!((state.run_max_floor, state.run_stats.best_depth), (6, 6));
    state.record_depth(FloorId(1));
    assert_eq!((state.run_max_floor, state.run_stats.best_depth), (6, 6));
}

#[test]
fn combat_lines_reach_the_message_log() {
    let mut state = lonely();
    let spawn = state.ecs.player_point();
    let imp = rainbow_rogue::data::monsters::MonsterTemplate::for_world(World::Red)[0];
    state.ecs.spawn_monster(&imp, Point::new(spawn.x + 1, spawn.y), FloorId(0), World::Red);
    state.tick(Some(Command::Wait), &Shadowcast);
    assert!(state.play_history.contains(&"Ember Imp claws you for 2".to_string()));
    assert_eq!(hp(&state), 18);
    assert!(state.ecs.drain_combat_log().is_empty());
}

#[test]
fn log_panel_start() {
    assert_eq!(calculate_log_start(43), 35);
    assert_eq!(calculate_log_start(0), 0);
    assert_eq!(calculate_log_start(-3), 0);
    assert_eq!(calculate_log_start(10), 8);
    assert_eq!(calculate_log_start(1), 1);
    assert_eq!(calculate_log_start(2), 1);
    assert_eq!(calculate_log_start(20), 12);
    assert_eq!(calculate_log_start(21), 13);
    assert_eq!(calculate_log_start(i32::MAX), i32::MAX - 8);
}
