use bracket_geometry::prelude::Point as OutsidePoint;
use bracket_pathfinding::prelude::{field_of_view, Algorithm2D, BaseMap};
use bracket_random::prelude::RandomNumberGenerator;
use rainbow_rogue::data::monsters::MonsterTemplate;
use rainbow_rogue::ecs::components::{
    Actor, CombatStats, IntentStep, InventoryEffect, MonsterBrain, Viewshed,
};
use rainbow_rogue::ecs::resources::{CombatLog, MovementContext};
use rainbow_rogue::ecs::systems::{
    step_away, step_towards, try_steps, EnergySystem, FieldOfView, FovSystem, MovementSystem,
    WanderSystem,
};
use rainbow_rogue::ecs::EcsWorld;
use rainbow_rogue::geometry::Point;
use rainbow_rogue::map::{Dungeon, FloorId, MapLayer, Tile, World, WorldFloor};

struct Grid<'a> {
    ctx: &'a MovementContext,
}

impl<'a> BaseMap for Grid<'a> {
    fn is_opaque(&self, idx: usize) -> bool {
        let p = self.index_to_point2d(idx);
        self.ctx.blocks_sight(Point::new(p.x, p.y))
    }
}

impl<'a> Algorithm2D for Grid<'a> {
    fn dimensions(&self) -> OutsidePoint {
        OutsidePoint::new(self.ctx.width, self.ctx.height)
    }

    fn in_bounds(&self, point: OutsidePoint) -> bool {
        self.ctx.in_bounds(Point::new(point.x, point.y))
    }
}

struct Shadowcast;

impl FieldOfView for Shadowcast {
    fn field_of_view(&self, movement: &MovementContext, origin: Point, radius: i32) -> Vec<Point> {
        field_of_view(OutsidePoint::new(origin.x, origin.y), radius, &Grid { ctx: movement })
            .into_iter()
            .map(|p| Point::new(p.x, p.y))
            .collect()
    }
}

struct Fixed(Vec<Point>);

impl FieldOfView for Fixed {
    fn field_of_view(&self, _movement: &MovementContext, _origin: Point, _radius: i32) -> Vec<Point> {
        self.0.clone()
    }
}

const F0: FloorId = FloorId(0);

fn arena(world: World, width: i32, height: i32, walls: &[Point]) -> MapLayer {
    let mut layer = MapLayer::empty(world, width, height);
    for y in 1..height - 1 {
        for x in 1..width - 1 {
            layer.set_tile(Point::new(x, y), Tile::floor(world));
        }
    }
    for w in walls {
        layer.set_tile(*w, Tile::wall());
    }
    layer
}

fn arena_dungeon(width: i32, height: i32, walls: &[Point]) -> Dungeon {
    let mut floor = WorldFloor::empty(F0, width, height);
    for y in 1..height - 1 {
        for x in 1..width - 1 {
            floor.layer_mut(World::Red).set_tile(Point::new(x, y), Tile::floor(World::Red));
        }
    }
    for w in walls {
        floor.layer_mut(World::Red).set_tile(*w, Tile::wall());
    }
    Dungeon { floors: vec![floor] }
}

fn imp() -> MonsterTemplate {
    MonsterTemplate::for_world(World::Red)[0]
}

fn wolf() -> MonsterTemplate {
    MonsterTemplate::for_world(World::Red)[1]
}

fn world_with(player: Point, monsters: &[(MonsterTemplate, Point)]) -> EcsWorld {
    let mut ecs = EcsWorld::new(player, F0, World::Red);
    for (t, p) in monsters {
        ecs.spawn_monster(t, *p, F0, World::Red);
    }
    ecs
}

fn hp_of(ecs: &EcsWorld, index: usize) -> i32 {
    ecs.entities[index].stats.unwrap().hp
}

fn point_of(ecs: &EcsWorld, index: usize) -> Point {
    ecs.entities[index].position.unwrap().point
}

#[test]
fn new_world_holds_the_player_alone() {
    let ecs = EcsWorld::new(Point::new(4, 7), FloorId(2), World::Blue);
    assert_eq!(ecs.entities.len(), 1);
    assert_eq!(ecs.turn, 0);
    assert_eq!(ecs.player_entity(), ecs.entities[0].entity);
    let pos = ecs.player_position();
    assert_eq!((pos.point, pos.floor, pos.world), (Point::new(4, 7), FloorId(2), World::Blue));
    assert_eq!(ecs.player_point(), Point::new(4, 7));
    assert_eq!(
        ecs.player_stats(),
        Some(CombatStats { max_hp: 20, hp: 20, power: 5, defense: 1 })
    );
    let hero = &ecs.entities[0];
    assert_eq!(hero.actor, Some(Actor { energy: 0, speed: 60 }));
    let r = hero.renderable.unwrap();
    assert_eq!((r.glyph, r.order), (b'@' as u16, 2));
    assert_eq!((r.color.r, r.color.g, r.color.b), (96, 165, 255));
    let vs = hero.viewshed.as_ref().unwrap();
    assert_eq!((vs.radius, vs.dirty), (8, true));
    assert!(vs.visible.is_empty() && vs.remembered.is_empty());
    assert!(hero.player.is_some() && hero.monster_tag.is_none() && hero.intent.is_none());
    assert_eq!(hero.attunements.as_ref().unwrap().unlocked, vec![World::Blue]);
    let inventory = ecs.player_inventory();
    assert_eq!(inventory.len(), 1);
    assert_eq!(inventory[0].0, 0);
    assert_eq!(inventory[0].1.name, "Stillwater Draught");
    assert_eq!(inventory[0].1.description, "Heals 10 HP and purges slowing chills.");
    assert_eq!(inventory[0].1.uses_remaining, 1);
    assert_eq!(inventory[0].1.effect, InventoryEffect::Heal { amount: 10 });
    assert!(ecs.player_visible_tiles().is_empty());
}

#[test]
fn spawn_monster_follows_the_template() {
    let mut ecs = EcsWorld::new(Point::new(1, 1), F0, World::Red);
    ecs.spawn_monster(&wolf(), Point::new(3, 2), FloorId(1), World::Green);
    assert_eq!(ecs.entities.len(), 2);
    let m = &ecs.entities[1];
    assert!(m.entity != ecs.player_entity());
    let pos = m.position.unwrap();
    assert_eq!((pos.point, pos.floor, pos.world), (Point::new(3, 2), FloorId(1), World::Green));
    let r = m.renderable.unwrap();
    assert_eq!((r.glyph, r.order), (b'w' as u16, 1));
    assert_eq!((r.color.r, r.color.g, r.color.b), (255, 90, 90));
    assert_eq!(m.monster.as_ref().unwrap().name, "Cinder Wolf");
    assert_eq!(m.brain.unwrap().wander_chance, 55);
    assert_eq!(m.stats, Some(CombatStats { max_hp: 10, hp: 10, power: 4, defense: 1 }));
    assert!(m.monster_tag.is_some() && m.player.is_none() && m.viewshed.is_none());
    let mut weak = imp();
    weak.hp = -4;
    ecs.spawn_monster(&weak, Point::new(4, 2), F0, World::Red);
    assert_eq!(ecs.entities[2].stats, Some(CombatStats { max_hp: 0, hp: 0, power: 3, defense: 0 }));
    assert!(ecs.entities[2].entity != ecs.entities[1].entity);
}

#[test]
fn entities_are_created_found_and_deleted() {
    let mut ecs = world_with(Point::new(5, 5), &[(imp(), Point::new(6, 5))]);
    let monster = ecs.entities[1].entity;
    let made = ecs.create_entity();
    assert!(made != monster && made != ecs.player_entity());
    assert_eq!(ecs.index_of(made), Some(2));
    assert_eq!(ecs.index_of(monster), Some(1));
    assert_eq!(ecs.index_of(ecs.player_entity()), Some(0));
    let rec = &ecs.entities[2];
    assert!(rec.position.is_none() && rec.stats.is_none() && rec.monster_tag.is_none());
    assert!(rec.player.is_none() && rec.inventory.is_none() && rec.intent.is_none());
    assert!(ecs.delete_entity(monster));
    assert_eq!(ecs.index_of(monster), None);
    assert_eq!(ecs.index_of(made), Some(1));
    assert!(!ecs.delete_entity(monster));
    let player = ecs.player_entity();
    assert!(!ecs.delete_entity(player));
    assert_eq!(ecs.entities.len(), 2);
    let next = ecs.create_entity();
    assert!(next != made && next != monster && next != player);
    assert_eq!(ecs.entity_at(Point::new(6, 5), F0, World::Red), None);
}

#[test]
fn attack_damage_is_at_least_one() {
    let weak = CombatStats { max_hp: 5, hp: 5, power: i32::MIN, defense: 0 };
    let tough = CombatStats { max_hp: 5, hp: 5, power: 0, defense: i32::MAX };
    assert_eq!(weak.damage_against(&tough), 1);
    assert_eq!(tough.damage_against(&tough), 1);
    let strong = CombatStats { max_hp: 5, hp: 5, power: 7, defense: 0 };
    assert_eq!(strong.damage_against(&CombatStats { max_hp: 5, hp: 5, power: 0, defense: 3 }), 4);
    assert_eq!(
        CombatStats { max_hp: 1, hp: 1, power: i32::MAX, defense: 0 }
            .damage_against(&CombatStats { max_hp: 1, hp: 1, power: 0, defense: i32::MIN }),
        i32::MAX as i64 - i32::MIN as i64
    );
}

#[test]
fn take_damage_stops_at_zero() {
    let mut s = CombatStats { max_hp: 10, hp: 4, power: 0, defense: 0 };
    s.take_damage(3);
    assert_eq!(s.hp, 1);
    s.take_damage(i64::MAX);
    assert_eq!(s.hp, 0);
    s.take_damage(1);
    assert_eq!(s.hp, 0);
    let mut t = CombatStats { max_hp: 10, hp: 4, power: 0, defense: 0 };
    t.take_damage(-5);
    assert_eq!(t.hp, 4);
}

#[test]
fn healing_never_exceeds_the_maximum() {
    let mut full = CombatStats { max_hp: 20, hp: 20, power: 5, defense: 1 };
    assert_eq!(full.heal(8), 0);
    assert_eq!(full.hp, 20);
    assert_eq!(full.heal(i32::MAX), 0);
    assert_eq!(full.hp, 20);
    let mut hurt = CombatStats { max_hp: 20, hp: 15, power: 5, defense: 1 };
    assert_eq!(hurt.heal(8), 5);
    assert_eq!(hurt.hp, 20);
    let mut low = CombatStats { max_hp: 20, hp: 3, power: 5, defense: 1 };
    assert_eq!(low.heal(8), 8);
    assert_eq!(low.hp, 11);
    assert_eq!(low.heal(0), 0);
    assert_eq!(low.heal(-100), -11);
    assert_eq!(low.hp, 0);
}

#[test]
fn player_attacks_monster_twice_and_kills_it() {
    let mut ecs = world_with(Point::new(5, 5), &[(imp(), Point::new(6, 5))]);
    let target = ecs.entities[1].entity;
    assert_eq!(ecs.entity_at(Point::new(6, 5), F0, World::Red), Some(target));
    let first = ecs.player_attack(Point::new(6, 5), F0, World::Red).unwrap();
    assert_eq!(first.hit, "You strike Ember Imp for 5");
    assert_eq!(first.kill, None);
    assert_eq!(hp_of(&ecs, 1), 1);
    assert_eq!(ecs.entities.len(), 2);
    let second = ecs.player_attack(Point::new(6, 5), F0, World::Red).unwrap();
    assert_eq!(second.hit, "You strike Ember Imp for 5");
    assert_eq!(second.kill, Some("Ember Imp collapses into specter dust.".to_string()));
    assert_eq!(ecs.entities.len(), 1);
    assert_eq!(ecs.entity_at(Point::new(6, 5), F0, World::Red), None);
    assert!(ecs.each_renderable(F0, World::Red, false).is_empty());
    assert_eq!(ecs.each_renderable(F0, World::Red, true).len(), 1);
    assert!(ecs.entities.iter().all(|r| r.entity != target));
    assert!(ecs.player_attack(Point::new(6, 5), F0, World::Red).is_none());
    assert_eq!(hp_of(&ecs, 0), 20);
}

#[test]
fn removed_entity_stays_gone_after_later_passes_and_spawns() {
    let layer = arena(World::Red, 12, 12, &[]);
    let mut ecs = world_with(Point::new(5, 5), &[(imp(), Point::new(6, 5)), (wolf(), Point::new(9, 9))]);
    let doomed = ecs.entities[1].entity;
    ecs.player_attack(Point::new(6, 5), F0, World::Red);
    ecs.player_attack(Point::new(6, 5), F0, World::Red);
    assert!(ecs.entities.iter().all(|r| r.entity != doomed));
    for _ in 0..5 {
        ecs.advance(&layer, F0, World::Red, &Shadowcast);
        ecs.spawn_monster(&imp(), Point::new(6, 5), F0, World::Blue);
        assert!(ecs.entities.iter().all(|r| r.entity != doomed));
        for y in 0..12 {
            for x in 0..12 {
                assert!(ecs.entity_at(Point::new(x, y), F0, World::Red) != Some(doomed));
            }
        }
    }
}

#[test]
fn player_attack_needs_a_target_with_stats() {
    let mut ecs = world_with(Point::new(5, 5), &[(imp(), Point::new(6, 5))]);
    assert!(ecs.player_attack(Point::new(7, 5), F0, World::Red).is_none());
    assert!(ecs.player_attack(Point::new(5, 5), F0, World::Red).is_none());
    assert!(ecs.player_attack(Point::new(6, 5), F0, World::Blue).is_none());
    assert!(ecs.player_attack(Point::new(6, 5), FloorId(1), World::Red).is_none());
    ecs.entities[1].stats = None;
    assert!(ecs.player_attack(Point::new(6, 5), F0, World::Red).is_none());
    ecs.entities[1].stats = Some(CombatStats { max_hp: 9, hp: 9, power: 1, defense: 9 });
    ecs.entities[1].monster = None;
    let report = ecs.player_attack(Point::new(6, 5), F0, World::Red).unwrap();
    assert_eq!(report.hit, "You strike foe for 1");
    assert_eq!(hp_of(&ecs, 1), 8);
}

#[test]
fn energy_accrues_by_speed_and_saturates() {
    let mut ecs = EcsWorld::new(Point::new(5, 5), F0, World::Red);
    ecs.spawn_monster(&imp(), Point::new(7, 7), F0, World::Red);
    ecs.entities[1].actor = Some(Actor { energy: i32::MAX - 10, speed: 60 });
    EnergySystem.run(&mut ecs.entities);
    assert_eq!(ecs.entities[0].actor, Some(Actor { energy: 60, speed: 60 }));
    assert_eq!(ecs.entities[1].actor, Some(Actor { energy: i32::MAX, speed: 60 }));
    ecs.entities[1].actor = Some(Actor { energy: i32::MIN + 5, speed: -60 });
    EnergySystem.run(&mut ecs.entities);
    assert_eq!(ecs.entities[0].actor, Some(Actor { energy: 120, speed: 60 }));
    assert_eq!(ecs.entities[1].actor, Some(Actor { energy: i32::MIN, speed: -60 }));
}

#[test]
fn steps_prefer_the_axis_with_the_larger_distance() {
    let open = MovementContext::from_layer(&arena(World::Red, 20, 20, &[]), F0, World::Red, Point::new(5, 5));
    assert_eq!(step_towards(Point::new(8, 9), Point::new(5, 5), &open), Some(Point::new(0, -1)));
    assert_eq!(step_towards(Point::new(9, 8), Point::new(5, 5), &open), Some(Point::new(-1, 0)));
    assert_eq!(step_towards(Point::new(8, 8), Point::new(5, 5), &open), Some(Point::new(-1, 0)));
    assert_eq!(step_towards(Point::new(5, 8), Point::new(5, 5), &open), Some(Point::new(0, -1)));
    assert_eq!(step_towards(Point::new(5, 5), Point::new(5, 5), &open), None);
    assert_eq!(step_away(Point::new(8, 9), Point::new(5, 5), &open), Some(Point::new(0, 1)));
    assert_eq!(step_away(Point::new(9, 8), Point::new(5, 5), &open), Some(Point::new(1, 0)));
    assert_eq!(try_steps(Point::new(3, 3), -7, 2, &open), Some(Point::new(-1, 0)));
    let walled = MovementContext::from_layer(
        &arena(World::Red, 20, 20, &[Point::new(8, 8)]),
        F0,
        World::Red,
        Point::new(5, 5),
    );
    assert_eq!(step_towards(Point::new(8, 9), Point::new(5, 5), &walled), Some(Point::new(-1, 0)));
    let boxed = MovementContext::from_layer(
        &arena(World::Red, 20, 20, &[Point::new(8, 8), Point::new(7, 9)]),
        F0,
        World::Red,
        Point::new(5, 5),
    );
    assert_eq!(step_towards(Point::new(8, 9), Point::new(5, 5), &boxed), None);
    assert_eq!(step_away(Point::new(18, 5), Point::new(5, 5), &open), None);
}

#[test]
fn weakened_monster_near_the_player_always_flees() {
    let layer = arena(World::Red, 30, 30, &[]);
    for seed in 0..40u64 {
        for monster_at in [Point::new(8, 5), Point::new(11, 5), Point::new(5, 11), Point::new(9, 8)] {
            let mut ecs = world_with(Point::new(5, 5), &[(wolf(), monster_at)]);
            ecs.rng = RandomNumberGenerator::seeded(seed);
            ecs.entities[1].stats = Some(CombatStats { max_hp: 10, hp: 3, power: 4, defense: 1 });
            let ctx = MovementContext::from_layer(&layer, F0, World::Red, ecs.player_point());
            WanderSystem.run(&mut ecs.entities, &ctx, &mut ecs.rng);
            let expected = step_away(monster_at, Point::new(5, 5), &ctx).unwrap();
            let toward = step_towards(monster_at, Point::new(5, 5), &ctx).unwrap();
            assert_eq!(ecs.entities[1].intent, Some(IntentStep { delta: expected }));
            assert!(ecs.entities[1].intent != Some(IntentStep { delta: toward }));
        }
    }
    let mut ecs = world_with(Point::new(5, 5), &[(wolf(), Point::new(8, 5))]);
    ecs.entities[1].stats = Some(CombatStats { max_hp: 10, hp: 3, power: 4, defense: 1 });
    let ctx = MovementContext::from_layer(&layer, F0, World::Red, ecs.player_point());
    WanderSystem.run(&mut ecs.entities, &ctx, &mut ecs.rng);
    assert_eq!(ecs.entities[1].intent, Some(IntentStep { delta: Point::new(1, 0) }));
}

#[test]
fn cornered_monster_neither_chases_nor_wanders() {
    let player = Point::new(5, 5);
    let cases = [
        (Point::new(8, 5), vec![Point::new(9, 5)], 3),
        (Point::new(8, 7), vec![Point::new(9, 7), Point::new(8, 8)], 3),
        (Point::new(11, 5), vec![Point::new(12, 5)], 3),
        (Point::new(8, 5), vec![Point::new(7, 5)], 10),
        (Point::new(8, 7), vec![Point::new(7, 7), Point::new(8, 6)], 10),
        (Point::new(13, 5), vec![Point::new(12, 5)], 10),
    ];
    for (monster_at, walls, hp) in cases.iter() {
        let layer = arena(World::Red, 30, 30, walls);
        for seed in 0..30u64 {
            let mut ecs = world_with(player, &[(wolf(), *monster_at)]);
            ecs.rng = RandomNumberGenerator::seeded(seed);
            ecs.entities[1].stats = Some(CombatStats { max_hp: 10, hp: *hp, power: 4, defense: 1 });
            ecs.entities[1].brain = Some(MonsterBrain { wander_chance: 100 });
            let ctx = MovementContext::from_layer(&layer, F0, World::Red, player);
            WanderSystem.run(&mut ecs.entities, &ctx, &mut ecs.rng);
            assert_eq!(ecs.entities[1].intent, None);
            let mut untouched = RandomNumberGenerator::seeded(seed);
            assert_eq!(ecs.rng.range(0, 1_000_000), untouched.range(0, 1_000_000));
        }
    }
    let layer = arena(World::Red, 30, 30, &[Point::new(9, 5)]);
    let mut ecs = world_with(player, &[(wolf(), Point::new(8, 5))]);
    ecs.entities[1].stats = Some(CombatStats { max_hp: 10, hp: 3, power: 4, defense: 1 });
    ecs.entities[1].intent = Some(IntentStep { delta: Point::new(0, 1) });
    let ctx = MovementContext::from_layer(&layer, F0, World::Red, player);
    WanderSystem.run(&mut ecs.entities, &ctx, &mut ecs.rng);
    assert_eq!(ecs.entities[1].intent, Some(IntentStep { delta: Point::new(0, 1) }));
}

#[test]
fn monster_without_stats_only_wanders() {
    let layer = arena(World::Red, 30, 30, &[]);
    let dirs = [Point::new(1, 0), Point::new(-1, 0), Point::new(0, 1), Point::new(0, -1)];
    for seed in 0..20u64 {
        let mut ecs = world_with(Point::new(5, 5), &[(wolf(), Point::new(7, 5))]);
        ecs.rng = RandomNumberGenerator::seeded(seed);
        ecs.entities[1].stats = None;
        let mut reference = RandomNumberGenerator::seeded(seed);
        let ctx = MovementContext::from_layer(&layer, F0, World::Red, Point::new(5, 5));
        WanderSystem.run(&mut ecs.entities, &ctx, &mut ecs.rng);
        let roll = reference.range(0, 100);
        let expected = if roll > 55 {
            None
        } else {
            Some(IntentStep { delta: dirs[reference.range(0, 4) as usize] })
        };
        assert_eq!(ecs.entities[1].intent, expected);
    }
}

#[test]
fn healthy_monster_near_the_player_gives_chase() {
    let layer = arena(World::Red, 30, 30, &[]);
    for (monster_at, step) in [
        (Point::new(8, 5), Point::new(-1, 0)),
        (Point::new(13, 5), Point::new(-1, 0)),
        (Point::new(5, 1), Point::new(0, 1)),
    ] {
        let mut ecs = world_with(Point::new(5, 5), &[(wolf(), monster_at)]);
        let ctx = MovementContext::from_layer(&layer, F0, World::Red, ecs.player_point());
        WanderSystem.run(&mut ecs.entities, &ctx, &mut ecs.rng);
        assert_eq!(ecs.entities[1].intent, Some(IntentStep { delta: step }));
    }
    let mut weak_but_far = world_with(Point::new(5, 5), &[(wolf(), Point::new(12, 5))]);
    weak_but_far.entities[1].stats = Some(CombatStats { max_hp: 10, hp: 3, power: 4, defense: 1 });
    let ctx = MovementContext::from_layer(&layer, F0, World::Red, Point::new(5, 5));
    WanderSystem.run(&mut weak_but_far.entities, &ctx, &mut weak_but_far.rng);
    assert_eq!(weak_but_far.entities[1].intent, Some(IntentStep { delta: Point::new(-1, 0) }));
}

#[test]
fn idle_monster_wanders_as_the_generator_says() {
    let layer = arena(World::Red, 40, 40, &[]);
    let dirs = [Point::new(1, 0), Point::new(-1, 0), Point::new(0, 1), Point::new(0, -1)];
    let mut stepped = 0;
    let mut directions_seen = std::collections::HashSet::new();
    for seed in 0..60u64 {
        let mut ecs = world_with(Point::new(5, 5), &[(imp(), Point::new(30, 30))]);
        ecs.rng = RandomNumberGenerator::seeded(seed);
        let mut reference = RandomNumberGenerator::seeded(seed);
        let ctx = MovementContext::from_layer(&layer, F0, World::Red, ecs.player_point());
        WanderSystem.run(&mut ecs.entities, &ctx, &mut ecs.rng);
        let roll = reference.range(0, 100);
        let expected = if roll > 65 {
            None
        } else {
            Some(IntentStep { delta: dirs[reference.range(0, 4) as usize] })
        };
        assert_eq!(ecs.entities[1].intent, expected);
        assert_eq!(ecs.entities[0].intent, None);
        if let Some(step) = expected {
            stepped += 1;
            directions_seen.insert((step.delta.x, step.delta.y));
        }
        assert_eq!(ecs.rng.range(0, 1000), reference.range(0, 1000));
    }
    assert!(stepped > 0 && stepped < 60);
    assert!(directions_seen.len() > 1);
}

#[test]
fn monsters_off_the_active_plane_do_not_decide() {
    let layer = arena(World::Red, 30, 30, &[]);
    let mut ecs = EcsWorld::new(Point::new(5, 5), F0, World::Red);
    ecs.spawn_monster(&wolf(), Point::new(6, 5), F0, World::Blue);
    ecs.spawn_monster(&wolf(), Point::new(6, 5), FloorId(1), World::Red);
    ecs.spawn_monster(&wolf(), Point::new(7, 5), F0, World::Red);
    ecs.entities[3].brain = None;
    let ctx = MovementContext::from_layer(&layer, F0, World::Red, ecs.player_point());
    WanderSystem.run(&mut ecs.entities, &ctx, &mut ecs.rng);
    assert!(ecs.entities.iter().all(|r| r.intent.is_none()));
}

#[test]
fn moving_into_a_wall_changes_nothing_but_the_intent() {
    let layer = arena(World::Red, 12, 12, &[Point::new(6, 5)]);
    let mut ecs = EcsWorld::new(Point::new(5, 5), F0, World::Red);
    ecs.queue_player_step(Point::new(1, 0));
    assert_eq!(ecs.entities[0].intent, Some(IntentStep { delta: Point::new(1, 0) }));
    ecs.advance(&layer, F0, World::Red, &Shadowcast);
    assert_eq!(ecs.player_point(), Point::new(5, 5));
    assert_eq!(ecs.entities[0].intent, None);
    assert!(ecs.drain_combat_log().is_empty());
    assert_eq!(ecs.turn, 1);
    ecs.queue_player_step(Point::new(-1, 0));
    ecs.advance(&layer, F0, World::Red, &Shadowcast);
    assert_eq!(ecs.player_point(), Point::new(4, 5));
    assert_eq!(ecs.entities[0].intent, None);
    ecs.queue_player_step(Point::new(i32::MAX, 0));
    ecs.advance(&layer, F0, World::Red, &Shadowcast);
    assert_eq!(ecs.player_point(), Point::new(4, 5));
    assert_eq!(ecs.entities[0].intent, None);
    ecs.queue_player_step(Point::new(1, 0));
    ecs.clear_player_intent();
    ecs.advance(&layer, F0, World::Red, &Shadowcast);
    assert_eq!(ecs.player_point(), Point::new(4, 5));
}

#[test]
fn monster_stepping_onto_the_player_strikes_instead() {
    let layer = arena(World::Red, 12, 12, &[]);
    let mut ecs = world_with(Point::new(5, 5), &[(imp(), Point::new(6, 5)), (wolf(), Point::new(5, 6))]);
    ecs.advance(&layer, F0, World::Red, &Shadowcast);
    assert_eq!(hp_of(&ecs, 0), 20 - 2 - 3);
    assert_eq!(point_of(&ecs, 1), Point::new(6, 5));
    assert_eq!(point_of(&ecs, 2), Point::new(5, 6));
    assert!(ecs.entities.iter().all(|r| r.intent.is_none()));
    assert!(!ecs.has_monster_intent());
    assert_eq!(
        ecs.drain_combat_log(),
        vec!["Ember Imp claws you for 2".to_string(), "Cinder Wolf claws you for 3".to_string()]
    );
    assert!(ecs.drain_combat_log().is_empty());
}

#[test]
fn the_blow_that_empties_the_player_is_told() {
    let layer = arena(World::Red, 12, 12, &[]);
    let mut ecs = world_with(Point::new(5, 5), &[(imp(), Point::new(6, 5)), (wolf(), Point::new(5, 6))]);
    ecs.entities[0].stats = Some(CombatStats { max_hp: 20, hp: 2, power: 5, defense: 1 });
    ecs.advance(&layer, F0, World::Red, &Shadowcast);
    assert_eq!(hp_of(&ecs, 0), 0);
    assert_eq!(ecs.entities.len(), 3);
    assert!(ecs.entities[0].player.is_some());
    assert_eq!(
        ecs.drain_combat_log(),
        vec![
            "Ember Imp claws you for 2".to_string(),
            "You feel your spectrum shatter.".to_string(),
            "Cinder Wolf claws you for 3".to_string(),
            "You feel your spectrum shatter.".to_string(),
        ]
    );
}

#[test]
fn player_moves_before_the_monsters_react() {
    let layer = arena(World::Red, 12, 12, &[]);
    let mut ecs = world_with(Point::new(5, 5), &[(imp(), Point::new(7, 5))]);
    ecs.queue_player_step(Point::new(-1, 0));
    ecs.advance(&layer, F0, World::Red, &Shadowcast);
    assert_eq!(ecs.player_point(), Point::new(4, 5));
    assert_eq!(point_of(&ecs, 1), Point::new(6, 5));
    assert_eq!(hp_of(&ecs, 0), 20);
    let mut close = world_with(Point::new(5, 5), &[(imp(), Point::new(7, 5))]);
    close.queue_player_step(Point::new(1, 0));
    close.advance(&layer, F0, World::Red, &Shadowcast);
    assert_eq!(close.player_point(), Point::new(6, 5));
    assert_eq!(point_of(&close, 1), Point::new(7, 5));
    assert_eq!(hp_of(&close, 0), 18);
}

#[test]
fn movement_system_leaves_other_planes_alone() {
    let layer = arena(World::Red, 12, 12, &[]);
    let mut ecs = EcsWorld::new(Point::new(5, 5), F0, World::Red);
    ecs.spawn_monster(&imp(), Point::new(3, 3), F0, World::Blue);
    ecs.entities[1].intent = Some(IntentStep { delta: Point::new(1, 0) });
    let mut log = CombatLog::default();
    let ctx = MovementContext::from_layer(&layer, F0, World::Red, Point::new(5, 5));
    MovementSystem.run(&mut ecs.entities, &ctx, &mut log);
    assert_eq!(point_of(&ecs, 1), Point::new(3, 3));
    assert_eq!(ecs.entities[1].intent, Some(IntentStep { delta: Point::new(1, 0) }));
    assert!(ecs.has_monster_intent());
    assert!(log.entries.is_empty());
    log.push("a line".to_string());
    assert_eq!(log.entries, vec!["a line".to_string()]);
}

#[test]
fn field_of_view_is_computed_for_dirty_viewsheds() {
    let layer = arena(World::Red, 20, 20, &[Point::new(7, 5)]);
    let mut ecs = EcsWorld::new(Point::new(5, 5), F0, World::Red);
    ecs.advance(&layer, F0, World::Red, &Shadowcast);
    let first = ecs.player_visible_tiles();
    assert!(!first.is_empty());
    assert!(first.contains(&Point::new(6, 5)));
    assert!(first.contains(&Point::new(7, 5)));
    assert!(!first.contains(&Point::new(9, 5)));
    assert!(first.iter().all(|p| layer.in_bounds(*p)));
    assert!(first.iter().all(|p| (p.x - 5).pow(2) + (p.y - 5).pow(2) <= 81));
    {
        let vs = ecs.entities[0].viewshed.as_ref().unwrap();
        assert!(!vs.dirty);
        assert_eq!(vs.remembered, first);
    }
    ecs.queue_player_step(Point::new(0, 3));
    ecs.advance(&layer, F0, World::Red, &Shadowcast);
    assert_eq!(ecs.player_point(), Point::new(5, 8));
    ecs.queue_player_step(Point::new(0, 1));
    ecs.advance(&layer, F0, World::Red, &Shadowcast);
    assert_eq!(ecs.player_point(), Point::new(5, 9));
    let vs = ecs.entities[0].viewshed.as_ref().unwrap();
    assert!(!vs.dirty);
    assert_eq!(&vs.remembered[..first.len()], &first[..]);
    assert!(vs.visible.iter().all(|p| vs.remembered.contains(p)));
    let mut seen = std::collections::HashSet::new();
    assert!(vs.remembered.iter().all(|p| seen.insert((p.x, p.y))));
}

#[test]
fn viewshed_refresh_drops_points_off_the_grid_and_remembers_once() {
    let layer = arena(World::Red, 6, 6, &[]);
    let ctx = MovementContext::from_layer(&layer, F0, World::Red, Point::new(2, 2));
    let mut vs = Viewshed {
        radius: 3,
        dirty: true,
        visible: vec![Point::new(9, 9)],
        remembered: vec![Point::new(1, 1), Point::new(4, 4)],
    };
    vs.refresh(
        &ctx,
        vec![Point::new(2, 2), Point::new(-1, 2), Point::new(4, 4), Point::new(2, 2), Point::new(2, 6), Point::new(5, 0)],
    );
    assert_eq!(
        vs.visible,
        vec![Point::new(2, 2), Point::new(4, 4), Point::new(2, 2), Point::new(5, 0)]
    );
    assert_eq!(
        vs.remembered,
        vec![Point::new(1, 1), Point::new(4, 4), Point::new(2, 2), Point::new(5, 0)]
    );
    assert!(!vs.dirty);
    assert_eq!(vs.radius, 3);
    let mut ecs = EcsWorld::new(Point::new(2, 2), F0, World::Red);
    FovSystem.run(&mut ecs.entities, &ctx, &Fixed(vec![Point::new(3, 3), Point::new(7, 7)]));
    assert_eq!(ecs.player_visible_tiles(), vec![Point::new(3, 3)]);
    ecs.entities[0].viewshed.as_mut().unwrap().remembered.clear();
    FovSystem.run(&mut ecs.entities, &ctx, &Fixed(vec![Point::new(1, 1)]));
    assert_eq!(ecs.player_visible_tiles(), vec![Point::new(3, 3)]);
}

#[test]
fn movement_context_mirrors_the_layer() {
    let layer = arena(World::Red, 6, 5, &[Point::new(2, 2)]);
    let ctx = MovementContext::from_layer(&layer, FloorId(3), World::Red, Point::new(1, 1));
    assert_eq!((ctx.floor, ctx.world, ctx.player_point), (FloorId(3), World::Red, Point::new(1, 1)));
    for y in -2..8 {
        for x in -2..8 {
            let p = Point::new(x, y);
            assert_eq!(ctx.is_walkable(p), layer.is_walkable(p));
            assert_eq!(ctx.blocks_sight(p), layer.blocks_sight(p));
            assert_eq!(ctx.in_bounds(p), layer.in_bounds(p));
        }
    }
    assert!(!ctx.is_walkable(Point::new(2, 2)));
    assert!(ctx.is_walkable(Point::new(3, 2)));
    assert!(ctx.blocks_sight(Point::new(0, 0)));
    assert!(!ctx.is_walkable(Point::new(i32::MAX, i32::MAX)));
    assert!(ctx.blocks_sight(Point::new(i32::MIN, 0)));
}

#[test]
fn set_player_position_relocates_and_marks_the_view_dirty() {
    let layer = arena(World::Red, 12, 12, &[]);
    let mut ecs = EcsWorld::new(Point::new(5, 5), F0, World::Red);
    ecs.advance(&layer, F0, World::Red, &Shadowcast);
    assert!(!ecs.entities[0].viewshed.as_ref().unwrap().dirty);
    ecs.set_player_position(Point::new(2, 3), FloorId(4), World::Violet);
    let pos = ecs.player_position();
    assert_eq!((pos.point, pos.floor, pos.world), (Point::new(2, 3), FloorId(4), World::Violet));
    let color = ecs.entities[0].renderable.unwrap().color;
    assert_eq!((color.r, color.g, color.b), (193, 126, 255));
    assert!(ecs.entities[0].viewshed.as_ref().unwrap().dirty);
}

#[test]
fn each_renderable_lists_the_plane_in_store_order() {
    let mut ecs = world_with(Point::new(5, 5), &[(imp(), Point::new(6, 5)), (wolf(), Point::new(2, 2))]);
    ecs.spawn_monster(&imp(), Point::new(9, 9), F0, World::Blue);
    let all = ecs.each_renderable(F0, World::Red, true);
    assert_eq!(
        all.iter().map(|(p, r)| (*p, r.glyph)).collect::<Vec<_>>(),
        vec![
            (Point::new(5, 5), b'@' as u16),
            (Point::new(6, 5), b'i' as u16),
            (Point::new(2, 2), b'w' as u16),
        ]
    );
    let monsters = ecs.each_renderable(F0, World::Red, false);
    assert_eq!(monsters.len(), 2);
    assert_eq!(ecs.each_renderable(F0, World::Blue, true).len(), 1);
    assert!(ecs.each_renderable(FloorId(1), World::Red, true).is_empty());
}

#[test]
fn heal_consumable_reports_what_was_gained() {
    let dungeon = arena_dungeon(12, 12, &[]);
    let mut ecs = EcsWorld::new(Point::new(5, 5), F0, World::Red);
    assert_eq!(
        ecs.use_consumable(0, &dungeon, F0, World::Red),
        Some(vec!["Activated Thermal Draft".to_string(), "No further vitality restored.".to_string()])
    );
    assert_eq!(hp_of(&ecs, 0), 20);
    let left = ecs.player_inventory();
    assert_eq!(left.len(), 1);
    assert_eq!((left[0].0, left[0].1.name.as_str()), (0, "Ember Nova"));
    let mut hurt = EcsWorld::new(Point::new(5, 5), F0, World::Red);
    hurt.entities[0].stats = Some(CombatStats { max_hp: 20, hp: 15, power: 5, defense: 1 });
    assert_eq!(
        hurt.use_consumable(0, &dungeon, F0, World::Red),
        Some(vec!["Activated Thermal Draft".to_string(), "Recovered 5 HP.".to_string()])
    );
    assert_eq!(hp_of(&hurt, 0), 20);
    let mut low = EcsWorld::new(Point::new(5, 5), F0, World::Red);
    low.entities[0].stats = Some(CombatStats { max_hp: 20, hp: 3, power: 5, defense: 1 });
    assert_eq!(
        low.use_consumable(0, &dungeon, F0, World::Red),
        Some(vec!["Activated Thermal Draft".to_string(), "Recovered 8 HP.".to_string()])
    );
    assert_eq!(hp_of(&low, 0), 11);
}

#[test]
fn empty_or_spent_slots_do_nothing() {
    let dungeon = arena_dungeon(12, 12, &[]);
    let mut ecs = EcsWorld::new(Point::new(5, 5), F0, World::Red);
    assert_eq!(ecs.use_consumable(2, &dungeon, F0, World::Red), None);
    assert_eq!(ecs.use_consumable(usize::MAX, &dungeon, F0, World::Red), None);
    assert_eq!(ecs.player_inventory().len(), 2);
    ecs.entities[0].inventory.as_mut().unwrap().slots[0].uses_remaining = 0;
    assert_eq!(ecs.use_consumable(0, &dungeon, F0, World::Red), None);
    assert_eq!(ecs.player_inventory().len(), 2);
    ecs.entities[0].inventory.as_mut().unwrap().slots[0].uses_remaining = 3;
    assert!(ecs.use_consumable(0, &dungeon, F0, World::Red).is_some());
    let slots = ecs.player_inventory();
    assert_eq!(slots.len(), 2);
    assert_eq!(slots[0].1.uses_remaining, 2);
    ecs.entities[0].inventory = None;
    assert_eq!(ecs.use_consumable(0, &dungeon, F0, World::Red), None);
    assert!(ecs.player_inventory().is_empty());
}

#[test]
fn cleanse_only_talks() {
    let dungeon = arena_dungeon(12, 12, &[]);
    let mut ecs = EcsWorld::new(Point::new(5, 5), F0, World::Green);
    assert_eq!(
        ecs.use_consumable(0, &dungeon, F0, World::Green),
        Some(vec![
            "Activated Prismatic Tonic".to_string(),
            "Resonance cleansed of spectral grime.".to_string()
        ])
    );
    assert_eq!(hp_of(&ecs, 0), 20);
    assert!(ecs.player_inventory().is_empty());
}

#[test]
fn nova_burns_monsters_within_its_radius() {
    let dungeon = arena_dungeon(20, 20, &[]);
    let mut ecs = world_with(
        Point::new(5, 5),
        &[
            (wolf(), Point::new(8, 5)),
            (imp(), Point::new(5, 7)),
            (imp(), Point::new(8, 6)),
            (imp(), Point::new(7, 7)),
        ],
    );
    ecs.spawn_monster(&imp(), Point::new(5, 6), F0, World::Blue);
    let dead = ecs.entities[2].entity;
    let lines = ecs.use_consumable(1, &dungeon, F0, World::Red).unwrap();
    assert_eq!(
        lines,
        vec![
            "Activated Ember Nova".to_string(),
            "Cinder Wolf sears for 6 damage.".to_string(),
            "Ember Imp sears for 6 damage.".to_string(),
            "Ember Imp sears for 6 damage.".to_string(),
            "Ember Imp disintegrates in prismatic fire.".to_string(),
            "Ember Imp disintegrates in prismatic fire.".to_string(),
        ]
    );
    assert_eq!(ecs.entities.len(), 4);
    assert_eq!(hp_of(&ecs, 0), 20);
    assert_eq!((point_of(&ecs, 1), hp_of(&ecs, 1)), (Point::new(8, 5), 4));
    assert_eq!((point_of(&ecs, 2), hp_of(&ecs, 2)), (Point::new(8, 6), 6));
    assert_eq!(ecs.entities[3].position.unwrap().world, World::Blue);
    assert_eq!(hp_of(&ecs, 3), 6);
    assert!(ecs.entities.iter().all(|r| r.entity != dead));
    assert_eq!(ecs.entity_at(Point::new(5, 7), F0, World::Red), None);
    assert_eq!(ecs.entity_at(Point::new(7, 7), F0, World::Red), None);
    assert_eq!(ecs.player_inventory().len(), 1);
}

#[test]
fn nova_without_monsters_in_reach_is_harmless() {
    let dungeon = arena_dungeon(20, 20, &[]);
    let mut ecs = world_with(Point::new(5, 5), &[(imp(), Point::new(9, 5)), (wolf(), Point::new(8, 6))]);
    ecs.spawn_monster(&imp(), Point::new(5, 6), FloorId(1), World::Red);
    let before: Vec<_> = ecs.entities.iter().map(|r| r.stats).collect();
    assert_eq!(ecs.spectral_nova(6, 3, F0, World::Red), vec!["Nova crackles harmlessly.".to_string()]);
    assert_eq!(ecs.entities.iter().map(|r| r.stats).collect::<Vec<_>>(), before);
    assert_eq!(ecs.spectral_nova(6, -1, F0, World::Red), vec!["Nova crackles harmlessly.".to_string()]);
    assert_eq!(
        ecs.use_consumable(1, &dungeon, F0, World::Red),
        Some(vec!["Activated Ember Nova".to_string(), "Nova crackles harmlessly.".to_string()])
    );
    assert_eq!(ecs.entities.iter().map(|r| r.stats).collect::<Vec<_>>(), before);
    assert_eq!(ecs.entities.len(), 4);
}

fn blink_candidates(ecs: &EcsWorld, dungeon: &Dungeon, range: i32) -> Vec<Point> {
    let current = ecs.player_point();
    let mut candidates = Vec::new();
    for dy in -range..=range {
        for dx in -range..=range {
            let point = Point::new(current.x + dx, current.y + dy);
            if dungeon.is_walkable(F0, World::Red, point)
                && ecs.entity_at(point, F0, World::Red).is_none()
            {
                candidates.push(point);
            }
        }
    }
    candidates
}

#[test]
fn blink_lands_on_a_free_walkable_point() {
    let walls = [Point::new(4, 4), Point::new(5, 4), Point::new(6, 6)];
    let dungeon = arena_dungeon(12, 12, &walls);
    let mut reference = RandomNumberGenerator::seeded(0x51ec5ead);
    let mut ecs = world_with(Point::new(5, 5), &[(imp(), Point::new(6, 5)), (wolf(), Point::new(4, 6))]);
    let mut landed = std::collections::HashSet::new();
    for _ in 0..25 {
        {
            let slot = &mut ecs.entities[0].inventory.as_mut().unwrap().slots[0];
            slot.effect = InventoryEffect::Blink { range: 2 };
            slot.uses_remaining = 2;
        }
        let candidates = blink_candidates(&ecs, &dungeon, 2);
        assert!(!candidates.is_empty());
        let expected = candidates[reference.range(0, candidates.len() as i32) as usize];
        let from = ecs.player_point();
        let lines = ecs.use_consumable(0, &dungeon, F0, World::Red).unwrap();
        let to = ecs.player_point();
        assert_eq!(to, expected);
        assert_eq!(lines, vec!["Activated Thermal Draft".to_string(), format!("Blink to {},{}", to.x, to.y)]);
        assert!(to != from);
        assert!((to.x - from.x).abs() <= 2 && (to.y - from.y).abs() <= 2);
        assert!(dungeon.is_walkable(F0, World::Red, to));
        assert!(!walls.contains(&to));
        assert!(to != Point::new(6, 5) && to != Point::new(4, 6));
        assert_eq!(ecs.entity_at(to, F0, World::Red), Some(ecs.player_entity()));
        assert!(ecs.entities[0].viewshed.as_ref().unwrap().dirty);
        landed.insert((to.x, to.y));
    }
    assert!(landed.len() > 3);
}

#[test]
fn blink_fizzles_without_a_free_point() {
    let dungeon = arena_dungeon(12, 12, &[]);
    let mut ecs = EcsWorld::new(Point::new(5, 5), F0, World::Red);
    for range in [0, -3] {
        {
            let slot = &mut ecs.entities[0].inventory.as_mut().unwrap().slots[0];
            slot.effect = InventoryEffect::Blink { range };
            slot.uses_remaining = 2;
        }
        assert_eq!(
            ecs.use_consumable(0, &dungeon, F0, World::Red),
            Some(vec![
                "Activated Thermal Draft".to_string(),
                "Blink fizzles; nowhere to anchor.".to_string()
            ])
        );
        assert_eq!(ecs.player_point(), Point::new(5, 5));
    }
    let walled_in = arena_dungeon(
        12,
        12,
        &[
            Point::new(4, 4), Point::new(5, 4), Point::new(6, 4), Point::new(4, 5),
            Point::new(6, 5), Point::new(4, 6), Point::new(5, 6), Point::new(6, 6),
        ],
    );
    assert_eq!(ecs.blink_destination(1, &walled_in, F0, World::Red), None);
    assert_eq!(ecs.blink_destination(1, &dungeon, FloorId(3), World::Red), None);
    assert!(ecs.blink_destination(1, &dungeon, F0, World::Red).is_some());
}
