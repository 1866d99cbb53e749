//! The first visit to a floor puts monsters on each of its planes.

use vstd::prelude::*;
use vstd::std_specs::hash::*;
use crate::data::monsters::{bestiary, MonsterTemplate};
use crate::dice::{
    draw_index, generator_state, pick_bound, range_step, seeded_generator, seeded_state,
};
use crate::ecs::store::{descends, index_at, occupied, Entity, EntityRecord};
use crate::ecs::world::{fresh_monster, EcsWorld};
use crate::game::state::RainbowRogueState;
use crate::geometry::Point;
use crate::map::dungeon::Dungeon;
use crate::map::layer::MapLayer;
use crate::map::world::{FloorId, SPECTRUM, World};

verus! {

/// The seed from which the seeds of the floors' monsters derive.
pub const MONSTER_SEED: u64 = 0xdead_beef;

/// The fewest monsters a plane is given, if it has the space.
pub const MIN_MONSTERS: usize = 2;

/// The most monsters a plane is given.
pub const MAX_MONSTERS: usize = 6;

/// How many monsters a plane with `walkable` walkable points is given: one
/// for every 90 points, but at least 2 and at most 6.
pub open spec fn spawn_target(walkable: int) -> int {
    if walkable / 90 < 2 {
        2
    } else if walkable / 90 > 6 {
        6
    } else {
        walkable / 90
    }
}

/// One monster to be put on a floor: on which plane, on which point, and
/// after which of the two patterns of that plane.
pub ghost struct Placement {
    pub world: World,
    pub point: Point,
    pub pick: int,
}

/// The state of the generator and the room left in the store at some
/// point of the seeding of a floor.
pub ghost struct Start {
    pub generator: int,
    pub room: int,
}

/// Monsters to be put on a floor, and the state in which drawing them
/// leaves the generator.
pub ghost struct Spawned {
    pub placements: Seq<Placement>,
    pub generator: int,
}

/// What the monsters of a floor depend on: who is in the store, the
/// dungeon, the floor, and where the player is.
pub ghost struct Seeding {
    pub entities: Seq<EntityRecord>,
    pub dungeon: Dungeon,
    pub floor: FloorId,
    pub active_floor: FloorId,
    pub active_world: World,
    pub hero_point: Point,
}

/// `points` without the point at place `idx`, the last point having moved
/// into its place.
pub open spec fn without(points: Seq<Point>, idx: int) -> Seq<Point> {
    Seq::new(
        (points.len() - 1) as nat,
        |k: int|
            if k == idx {
                points.last()
            } else {
                points[k]
            },
    )
}

/// Taking a point off a list of distinct points leaves distinct points,
/// none of which is the point taken off.
pub proof fn lemma_without(points: Seq<Point>, idx: int)
    requires
        0 <= idx < points.len(),
        forall|a: int, b: int|
            0 <= a < b < points.len() ==> #[trigger] points[a] != #[trigger] points[b],
    ensures
        without(points, idx) == points.update(idx, points.last()).drop_last(),
        without(points, idx).len() == points.len() - 1,
        forall|k: int|
            0 <= k < points.len() - 1 ==> #[trigger] without(points, idx)[k] != points[idx]
                && points.contains(without(points, idx)[k]),
        forall|a: int, b: int|
            0 <= a < b < points.len() - 1 ==> #[trigger] without(points, idx)[a]
                != #[trigger] without(points, idx)[b],
{
    let rest = without(points, idx);
    assert(rest =~= points.update(idx, points.last()).drop_last());
    assert forall|k: int| 0 <= k < points.len() - 1 implies #[trigger] rest[k] != points[idx]
        && points.contains(rest[k]) by {
        if k == idx {
            assert(rest[k] == points[points.len() - 1]);
        } else {
            assert(rest[k] == points[k]);
        }
    }
    assert forall|a: int, b: int| 0 <= a < b < points.len() - 1 implies #[trigger] rest[a]
        != #[trigger] rest[b] by {
        let la = if a == idx {
            points.len() - 1
        } else {
            a
        };
        let lb = if b == idx {
            points.len() - 1
        } else {
            b
        };
        assert(rest[a] == points[la]);
        assert(rest[b] == points[lb]);
    }
}

impl Seeding {
    /// Whether `point` of the plane `world` is taken: somebody stands on
    /// it, or it is where the player is.
    pub open spec fn taken(self, world: World, point: Point) -> bool {
        occupied(self.entities, point, self.floor, world) || (self.floor == self.active_floor
            && world == self.active_world && point == self.hero_point)
    }

    /// The plane at place `w` of the spectrum on the floor to be seeded.
    pub open spec fn layer(self, w: int) -> MapLayer {
        self.dungeon.floors[self.floor.0 as int].plane(World::at(w))
    }

    /// The monsters put on the plane `world`, of which `walkable` are the
    /// points still to be tried, by a generator in state `state`, while
    /// `wanted` monsters are still wanted and the store has room for
    /// `room`. A place among the points is drawn and the point taken off
    /// the list; unless the point is taken a pattern is drawn for it.
    pub open spec fn plane_spawns(
        self,
        world: World,
        walkable: Seq<Point>,
        state: int,
        wanted: int,
        room: int,
    ) -> Spawned
        decreases walkable.len(),
    {
        if wanted <= 0 || walkable.len() == 0 || room <= 0 {
            Spawned { placements: Seq::empty(), generator: state }
        } else {
            let idx = range_step(state, 0, pick_bound(walkable.len() as int)).0;
            let drawn = range_step(state, 0, pick_bound(walkable.len() as int)).1;
            let point = walkable[idx];
            let rest = without(walkable, idx);
            if self.taken(world, point) {
                self.plane_spawns(world, rest, drawn, wanted, room)
            } else {
                let pick = range_step(drawn, 0, 2).0;
                let picked = range_step(drawn, 0, 2).1;
                let more = self.plane_spawns(world, rest, picked, wanted - 1, room - 1);
                Spawned {
                    placements: seq![Placement { world, point, pick }] + more.placements,
                    generator: more.generator,
                }
            }
        }
    }

    /// How many of `points` on the plane `world` are not taken.
    pub open spec fn free_points(self, world: World, points: Seq<Point>) -> nat
        decreases points.len(),
    {
        if points.len() == 0 {
            0
        } else if self.taken(world, points.last()) {
            self.free_points(world, points.drop_last())
        } else {
            self.free_points(world, points.drop_last()) + 1
        }
    }

    /// How many monsters the plane at place `w` of the spectrum wants.
    pub open spec fn wanted(self, w: int) -> int {
        spawn_target(self.layer(w).walkable_listing().len() as int)
    }

    /// The state of the generator, and the room left in the store, when
    /// the plane at place `w` of the spectrum comes up, the seeding having
    /// begun in state `state` with room for `room`.
    pub open spec fn start_of(self, w: nat, state: int, room: int) -> Start
        decreases w,
    {
        if w == 0 {
            Start { generator: state, room }
        } else {
            let before = self.start_of((w - 1) as nat, state, room);
            let here = self.part_from(w - 1, before);
            Start { generator: here.generator, room: before.room - here.placements.len() }
        }
    }

    /// The monsters put on the plane at place `w` of the spectrum when it
    /// comes up at `start`.
    pub open spec fn part_from(self, w: int, start: Start) -> Spawned {
        self.plane_spawns(
            World::at(w),
            self.layer(w).walkable_listing(),
            start.generator,
            self.wanted(w),
            start.room,
        )
    }

    /// The monsters put on the plane at place `w` of the spectrum.
    pub open spec fn part(self, w: nat, state: int, room: int) -> Spawned {
        self.part_from(w as int, self.start_of(w, state, room))
    }

    /// The monsters put on the first `w` planes of the spectrum, plane
    /// after plane.
    pub open spec fn spawns_upto(self, w: nat, state: int, room: int) -> Seq<Placement>
        decreases w,
    {
        if w == 0 {
            Seq::empty()
        } else {
            self.spawns_upto((w - 1) as nat, state, room) + self.part(
                (w - 1) as nat,
                state,
                room,
            ).placements
        }
    }

    /// The state in which the seeding of the floor begins.
    pub open spec fn first_state(self) -> int {
        seeded_state(MONSTER_SEED ^ (self.floor.0 as u64))
    }

    /// The monsters put on the floor, `next_entity` being the next identity
    /// that the store gives out. A floor that has not been generated gets
    /// none.
    pub open spec fn plan(self, next_entity: u64) -> Seq<Placement> {
        if self.floor.0 < self.dungeon.floors.len() {
            self.spawns_upto(7, self.first_state(), u64::MAX - next_entity)
        } else {
            Seq::empty()
        }
    }

    /// Whether the plane at place `w` of the spectrum is given as many
    /// monsters as it wants, or as many as it has free walkable points, or
    /// as many as the store has room for, whichever is least.
    pub open spec fn plane_filled(self, w: nat, next_entity: u64) -> bool {
        let start = self.start_of(w, self.first_state(), u64::MAX - next_entity);
        let got = self.part(w, self.first_state(), u64::MAX - next_entity).placements.len() as int;
        let free = self.free_points(
            World::at(w as int),
            self.layer(w as int).walkable_listing(),
        ) as int;
        got == least(self.wanted(w as int), least(free, start.room))
    }
}

/// Where nobody but the player can be in the way, all points but one
/// are free: of distinct points on a plane of which only the player's point
/// may be taken, at most one is not free.
pub proof fn lemma_free_points_nearly_all(seeding: Seeding, world: World, points: Seq<Point>)
    requires
        forall|a: int, b: int|
            0 <= a < b < points.len() ==> #[trigger] points[a] != #[trigger] points[b],
        forall|k: int|
            0 <= k < points.len() && seeding.taken(world, #[trigger] points[k]) ==> points[k]
                == seeding.hero_point,
    ensures
        seeding.free_points(world, points) + 1 >= points.len(),
        !points.contains(seeding.hero_point) ==> seeding.free_points(world, points)
            == points.len(),
    decreases points.len(),
{
    if points.len() > 0 {
        let rest = points.drop_last();
        assert forall|a: int, b: int| 0 <= a < b < rest.len() implies #[trigger] rest[a]
            != #[trigger] rest[b] by {
            assert(rest[a] == points[a] && rest[b] == points[b]);
        }
        assert forall|k: int|
            0 <= k < rest.len() && seeding.taken(world, #[trigger] rest[k]) implies rest[k]
            == seeding.hero_point by {
            assert(rest[k] == points[k]);
        }
        lemma_free_points_nearly_all(seeding, world, rest);
        if points.last() == seeding.hero_point {
            assert(!rest.contains(seeding.hero_point)) by {
                if rest.contains(seeding.hero_point) {
                    let k = choose|k: int| 0 <= k < rest.len() && rest[k] == seeding.hero_point;
                    assert(points[k] == points[points.len() - 1]);
                }
            }
        } else {
            assert(!seeding.taken(world, points.last())) by {
                assert(points[points.len() - 1] == points.last());
            }
            if !points.contains(seeding.hero_point) {
                assert(!rest.contains(seeding.hero_point)) by {
                    if rest.contains(seeding.hero_point) {
                        let k = choose|k: int|
                            0 <= k < rest.len() && rest[k] == seeding.hero_point;
                        assert(points[k] == seeding.hero_point);
                    }
                }
            }
        }
    }
}

/// Every plane before the plane at place `w` having been filled, the
/// store has room left for all but six monsters for each of them.
pub proof fn lemma_room_left(seeding: Seeding, w: nat, next_entity: u64)
    requires
        forall|v: nat| v < w ==> #[trigger] seeding.plane_filled(v, next_entity),
    ensures
        seeding.start_of(w, seeding.first_state(), u64::MAX - next_entity).room >= u64::MAX
            - next_entity - 6 * w,
    decreases w,
{
    if w > 0 {
        lemma_room_left(seeding, (w - 1) as nat, next_entity);
        assert(seeding.plane_filled((w - 1) as nat, next_entity));
    }
}

/// A plane that has at least as many free walkable points as it wants
/// monsters, on a floor seeded while the store has room for 42 more
/// entities, is given exactly as many monsters as it wants: one for every
/// 90 walkable points, but at least 2 and at most 6.
pub proof fn lemma_plane_gets_what_it_wants(seeding: Seeding, w: nat, next_entity: u64)
    requires
        w < 7,
        forall|v: nat| v < 7 ==> #[trigger] seeding.plane_filled(v, next_entity),
        next_entity + 42 <= u64::MAX,
        seeding.free_points(World::at(w as int), seeding.layer(w as int).walkable_listing())
            >= seeding.wanted(w as int),
    ensures
        seeding.part(w, seeding.first_state(), u64::MAX - next_entity).placements.len()
            == seeding.wanted(w as int),
        2 <= seeding.wanted(w as int) <= 6,
{
    lemma_room_left(seeding, w, next_entity);
    assert(seeding.plane_filled(w, next_entity));
}

/// On a floor on which nobody but the player stands, a plane with at
/// least seven walkable points is given exactly as many monsters as it
/// wants, as long as the store has room for 42 more entities.
pub proof fn lemma_unvisited_plane_gets_what_it_wants(seeding: Seeding, w: nat, next_entity: u64)
    requires
        w < 7,
        forall|v: nat| v < 7 ==> #[trigger] seeding.plane_filled(v, next_entity),
        next_entity + 42 <= u64::MAX,
        seeding.layer(w as int).walkable_listing().len() >= 7,
        forall|i: int|
            0 <= i < seeding.entities.len() && (#[trigger] seeding.entities[i]).position is Some
                && seeding.entities[i].position->0.floor == seeding.floor
                ==> seeding.entities[i].position->0.point == seeding.hero_point,
    ensures
        seeding.part(w, seeding.first_state(), u64::MAX - next_entity).placements.len()
            == spawn_target(seeding.layer(w as int).walkable_listing().len() as int),
{
    let world = World::at(w as int);
    let listing = seeding.layer(w as int).walkable_listing();
    seeding.layer(w as int).lemma_listing_distinct();
    assert forall|k: int|
        0 <= k < listing.len() && seeding.taken(world, #[trigger] listing[k]) implies listing[k]
        == seeding.hero_point by {
        if occupied(seeding.entities, listing[k], seeding.floor, world) {
            let i = choose|i: int|
                0 <= i < seeding.entities.len() && (#[trigger] seeding.entities[i]).stands_at(
                    listing[k],
                    seeding.floor,
                    world,
                );
            assert(seeding.entities[i].position->0.point == seeding.hero_point);
        }
    }
    lemma_free_points_nearly_all(seeding, world, listing);
    lemma_plane_gets_what_it_wants(seeding, w, next_entity);
}

/// The lesser of two numbers.
pub open spec fn least(a: int, b: int) -> int {
    if a <= b {
        a
    } else {
        b
    }
}

/// Putting another point in the place of one changes the number of free
/// points by what the two differ in being free.
pub proof fn lemma_free_points_update(
    seeding: Seeding,
    world: World,
    points: Seq<Point>,
    idx: int,
    point: Point,
)
    requires
        0 <= idx < points.len(),
    ensures
        seeding.free_points(world, points.update(idx, point)) + seeding.free_points(
            world,
            seq![points[idx]],
        ) == seeding.free_points(world, points) + seeding.free_points(world, seq![point]),
    decreases points.len(),
{
    let changed = points.update(idx, point);
    lemma_free_points_one(seeding, world, points[idx]);
    lemma_free_points_one(seeding, world, point);
    if idx == points.len() - 1 {
        assert(changed.drop_last() =~= points.drop_last());
    } else {
        lemma_free_points_update(seeding, world, points.drop_last(), idx, point);
        assert(changed.drop_last() =~= points.drop_last().update(idx, point));
    }
}

/// A single point counts as free unless it is taken.
pub proof fn lemma_free_points_one(seeding: Seeding, world: World, point: Point)
    ensures
        seeding.free_points(world, seq![point]) == if seeding.taken(world, point) {
            0nat
        } else {
            1nat
        },
{
    assert(seq![point].drop_last() =~= Seq::<Point>::empty());
    assert(seq![point].last() == point);
    reveal_with_fuel(Seeding::free_points, 2);
}

/// Taking a point off the list takes one off the number of free points
/// if the point is free, and none if it is taken.
pub proof fn lemma_free_points_without(
    seeding: Seeding,
    world: World,
    points: Seq<Point>,
    idx: int,
)
    requires
        0 <= idx < points.len(),
    ensures
        seeding.free_points(world, without(points, idx)) + seeding.free_points(
            world,
            seq![points[idx]],
        ) == seeding.free_points(world, points),
{
    let rest = without(points, idx);
    lemma_free_points_one(seeding, world, points[idx]);
    lemma_free_points_one(seeding, world, points.last());
    if idx == points.len() - 1 {
        assert(rest =~= points.drop_last());
    } else {
        assert(rest =~= points.drop_last().update(idx, points.last()));
        lemma_free_points_update(seeding, world, points.drop_last(), idx, points.last());
    }
}

/// Whether `rec` is the monster that `placement` puts on `floor`.
pub open spec fn placed(rec: EntityRecord, entity: Entity, placement: Placement, floor: FloorId) -> bool {
    fresh_monster(
        rec,
        entity,
        bestiary(placement.world)[placement.pick],
        placement.point,
        floor,
        placement.world,
    )
}

/// Whether `rec` is a monster newly put on `floor`: made after one of the
/// two patterns of its plane, on a walkable point of that plane.
pub open spec fn newcomer(rec: EntityRecord, floor: FloorId, dungeon: Dungeon) -> bool {
    &&& rec.position is Some
    &&& rec.position->0.floor == floor
    &&& dungeon.walkable(floor, rec.position->0.world, rec.position->0.point)
    &&& exists|k: int|
        0 <= k < 2 && fresh_monster(
            rec,
            rec.entity,
            #[trigger] bestiary(rec.position->0.world)[k],
            rec.position->0.point,
            floor,
            rec.position->0.world,
        )
}

/// Whether the entity at place `i` of the store stands where no entity
/// before it in the store stands.
pub open spec fn stands_alone(entities: Seq<EntityRecord>, i: int) -> bool {
    forall|j: int|
        0 <= j < i ==> !(#[trigger] entities[j]).stands_at(
            entities[i].position->0.point,
            entities[i].position->0.floor,
            entities[i].position->0.world,
        )
}

impl RainbowRogueState {
    /// What the monsters of `floor` depend on.
    pub open spec fn seeding(self, floor: FloorId) -> Seeding {
        Seeding {
            entities: self.ecs.entities@,
            dungeon: self.dungeon,
            floor,
            active_floor: self.active_floor,
            active_world: self.active_world,
            hero_point: self.ecs.hero_position().point,
        }
    }

    /// Whether `post` is `pre` after the monsters of `floor` have been
    /// seen to. A floor that has had its monsters gets no more. Otherwise
    /// the floor is noted as seeded and its monsters are added to the
    /// store, in the order in which they were drawn. Every plane is given
    /// as many as it wants (one for every 90 walkable points, at least 2, at
    /// most 6), or fewer only where it has fewer free walkable points or the
    /// store less room; each is of the plane's own kind and stands on a
    /// walkable point on which nobody stood. Nobody who was there before is
    /// touched.
    pub open spec fn monsters_seeded(pre: Self, floor: FloorId, post: Self) -> bool {
        if pre.seeded_floors@.contains(floor.0) {
            post == pre
        } else {
            let plan = pre.seeding(floor).plan(pre.ecs.next_entity);
            &&& post == (RainbowRogueState {
                ecs: post.ecs,
                seeded_floors: post.seeded_floors,
                ..pre
            })
            &&& post.seeded_floors@ == pre.seeded_floors@.insert(floor.0)
            &&& post.ecs == (EcsWorld {
                entities: post.ecs.entities,
                next_entity: post.ecs.next_entity,
                ..pre.ecs
            })
            &&& post.ecs.next_entity == pre.ecs.next_entity + plan.len()
            &&& pre.ecs.entities@.is_prefix_of(post.ecs.entities@)
            &&& post.ecs.entities.len() == pre.ecs.entities.len() + plan.len()
            &&& plan.len() <= 7 * MAX_MONSTERS
            &&& floor.0 < pre.dungeon.floors.len() ==> forall|w: nat|
                w < 7 ==> #[trigger] pre.seeding(floor).plane_filled(w, pre.ecs.next_entity)
            &&& forall|i: int|
                0 <= i < plan.len() ==> placed(
                    #[trigger] post.ecs.entities[pre.ecs.entities.len() + i],
                    Entity { id: (pre.ecs.next_entity + i) as u64 },
                    plan[i],
                    floor,
                )
            &&& forall|i: int|
                pre.ecs.entities.len() <= i < post.ecs.entities.len() ==> newcomer(
                    #[trigger] post.ecs.entities[i],
                    floor,
                    pre.dungeon,
                ) && stands_alone(post.ecs.entities@, i)
        }
    }

    /// Gives the floor `floor_id` its monsters, unless it has had them.
    pub fn seed_floor_monsters(&mut self, floor_id: FloorId)
        requires
            old(self).wf(),
        ensures
            final(self).wf(),
            Self::monsters_seeded(*old(self), floor_id, *final(self)),
            descends(
                old(self).ecs.entities@,
                old(self).ecs.next_entity,
                final(self).ecs.entities@,
            ),
    {
        proof {
            crate::ecs::store::lemma_same_roster_descends(
                old(self).ecs.entities@,
                old(self).ecs.next_entity,
                self.ecs.entities@,
            );
        }
        broadcast use group_hash_axioms;

        if self.seeded_floors.contains(&floor_id.0) {
            return ;
        }
        let mut rng = seeded_generator(MONSTER_SEED ^ (floor_id.0 as u64));
        let ghost seeding = old(self).seeding(floor_id);
        let ghost first = old(self).ecs.entities.len() as int;
        let ghost first_id = old(self).ecs.next_entity as int;
        let ghost state0 = generator_state(rng);
        let ghost room0 = u64::MAX - first_id;
        let ghost mut done: Seq<Placement> = Seq::empty();
        if (floor_id.0 as usize) < self.dungeon.floors.len() {
            let mut w: usize = 0;
            while w < 7
                invariant
                    w <= 7,
                    first == old(self).ecs.entities.len(),
                    first_id == old(self).ecs.next_entity,
                    seeding == old(self).seeding(floor_id),
                    old(self).wf(),
                    self.wf(),
                    floor_id.0 < self.dungeon.floors.len(),
                    *self == (RainbowRogueState { ecs: self.ecs, ..*old(self) }),
                    self.ecs == (EcsWorld {
                        entities: self.ecs.entities,
                        next_entity: self.ecs.next_entity,
                        ..old(self).ecs
                    }),
                    self.ecs.next_entity == first_id + done.len(),
                    self.ecs.entities.len() == first + done.len(),
                    old(self).ecs.entities@.is_prefix_of(self.ecs.entities@),
                    done.len() <= w * MAX_MONSTERS,
                    state0 == seeding.first_state(),
                    room0 == u64::MAX - first_id,
                    done == seeding.spawns_upto(w as nat, state0, room0),
                    seeding.start_of(w as nat, state0, room0) == (Start {
                        generator: generator_state(rng),
                        room: u64::MAX - self.ecs.next_entity,
                    }),
                    forall|v: nat|
                        v < w ==> #[trigger] seeding.plane_filled(v, old(self).ecs.next_entity),
                    forall|i: int|
                        0 <= i < done.len() ==> placed(
                            #[trigger] self.ecs.entities[first + i],
                            Entity { id: (first_id + i) as u64 },
                            done[i],
                            floor_id,
                        ),
                    forall|i: int| 0 <= i < done.len() ==> (#[trigger] done[i]).world.index() < w,
                    forall|i: int|
                        first <= i < self.ecs.entities.len() ==> newcomer(
                            #[trigger] self.ecs.entities[i],
                            floor_id,
                            self.dungeon,
                        ) && stands_alone(self.ecs.entities@, i),
                    descends(
                        old(self).ecs.entities@,
                        old(self).ecs.next_entity,
                        self.ecs.entities@,
                    ),
                decreases 7 - w,
            {
                let world = SPECTRUM[w];
                let mut walkable = self.dungeon.floors[floor_id.0 as usize].layer(
                    world,
                ).walkable_points();
                let templates = MonsterTemplate::for_world(world);
                let wanted = walkable.len() / 90;
                let target: usize = if wanted < MIN_MONSTERS {
                    MIN_MONSTERS
                } else if wanted > MAX_MONSTERS {
                    MAX_MONSTERS
                } else {
                    wanted
                };
                let mut spawned: usize = 0;
                let ghost layer = self.dungeon.floors[floor_id.0 as int].plane(world);
                let ghost before_plane = done;
                let ghost plane_state = generator_state(rng);
                let ghost plane_room = u64::MAX - self.ecs.next_entity;
                let ghost listing = walkable@;
                let ghost here_total = seeding.plane_spawns(
                    world,
                    walkable@,
                    plane_state,
                    target as int,
                    plane_room,
                );
                let ghost mut here: Seq<Placement> = Seq::empty();
                proof {
                    assert(World::at(w as int) == world);
                    assert(layer == seeding.layer(w as int));
                    assert(here + here_total.placements =~= here_total.placements);
                    assert(before_plane + here =~= done);
                }
                while spawned < target && walkable.len() > 0 && self.ecs.next_entity < u64::MAX
                    invariant
                        w < 7,
                        world == SPECTRUM[w as int],
                        world.index() == w,
                        spawned <= target <= MAX_MONSTERS,
                        spawned == here.len(),
                        templates@ == bestiary(world),
                        first == old(self).ecs.entities.len(),
                        first_id == old(self).ecs.next_entity,
                        seeding == old(self).seeding(floor_id),
                        old(self).wf(),
                        self.wf(),
                        floor_id.0 < self.dungeon.floors.len(),
                        layer == self.dungeon.floors[floor_id.0 as int].plane(world),
                        forall|k: int|
                            0 <= k < walkable.len() ==> layer.walkable(#[trigger] walkable[k]),
                        forall|a: int, b: int|
                            0 <= a < b < walkable.len() ==> #[trigger] walkable[a]
                                != #[trigger] walkable[b],
                        forall|i: int, k: int|
                            0 <= i < here.len() && 0 <= k < walkable.len() ==> (
                            #[trigger] here[i]).point != #[trigger] walkable[k],
                        *self == (RainbowRogueState { ecs: self.ecs, ..*old(self) }),
                        self.ecs == (EcsWorld {
                            entities: self.ecs.entities,
                            next_entity: self.ecs.next_entity,
                            ..old(self).ecs
                        }),
                        done == before_plane + here,
                        before_plane.len() <= w * MAX_MONSTERS,
                        self.ecs.next_entity == first_id + done.len(),
                        self.ecs.entities.len() == first + done.len(),
                        old(self).ecs.entities@.is_prefix_of(self.ecs.entities@),
                        seeding.free_points(world, listing) == spawned + seeding.free_points(
                            world,
                            walkable@,
                        ),
                        plane_room == spawned + (u64::MAX - self.ecs.next_entity),
                        here_total.placements == here + seeding.plane_spawns(
                            world,
                            walkable@,
                            generator_state(rng),
                            target - spawned,
                            u64::MAX - self.ecs.next_entity,
                        ).placements,
                        here_total.generator == seeding.plane_spawns(
                            world,
                            walkable@,
                            generator_state(rng),
                            target - spawned,
                            u64::MAX - self.ecs.next_entity,
                        ).generator,
                        forall|i: int|
                            0 <= i < done.len() ==> placed(
                                #[trigger] self.ecs.entities[first + i],
                                Entity { id: (first_id + i) as u64 },
                                done[i],
                                floor_id,
                            ),
                        forall|i: int|
                            0 <= i < before_plane.len() ==> (
                            #[trigger] before_plane[i]).world.index() < w,
                        forall|i: int| 0 <= i < here.len() ==> (#[trigger] here[i]).world == world,
                        forall|i: int|
                            first <= i < self.ecs.entities.len() ==> newcomer(
                                #[trigger] self.ecs.entities[i],
                                floor_id,
                                self.dungeon,
                            ) && stands_alone(self.ecs.entities@, i),
                        descends(
                            old(self).ecs.entities@,
                            old(self).ecs.next_entity,
                            self.ecs.entities@,
                        ),
                    decreases walkable.len(),
                {
                    let ghost listed = walkable@;
                    let idx = draw_index(&mut rng, walkable.len());
                    let point = walkable.swap_remove(idx);
                    proof {
                        lemma_without(listed, idx as int);
                        assert(walkable@ == without(listed, idx as int));
                        lemma_free_points_without(seeding, world, listed, idx as int);
                        lemma_free_points_one(seeding, world, listed[idx as int]);
                        assert forall|k: int| 0 <= k < walkable.len() implies layer.walkable(
                            #[trigger] walkable[k],
                        ) by {
                            let p = walkable[k];
                            assert(listed.contains(p));
                            let j = choose|j: int| 0 <= j < listed.len() && listed[j] == p;
                            assert(layer.walkable(listed[j]));
                        }
                        assert forall|i: int, k: int|
                            0 <= i < here.len() && 0 <= k < walkable.len() implies (
                        #[trigger] here[i]).point != #[trigger] walkable[k] by {
                            let p = walkable[k];
                            assert(listed.contains(p));
                            let j = choose|j: int| 0 <= j < listed.len() && listed[j] == p;
                            assert(here[i].point != listed[j]);
                        }
                    }
                    let taken = index_at(&self.ecs.entities, point, floor_id, world).is_some();
                    let under_player = floor_id == self.active_floor && world == self.active_world
                        && point == self.ecs.player_point();
                    proof {
                        assert(self.ecs.hero_position() == old(self).ecs.hero_position()) by {
                            assert(self.ecs.entities[0] == old(self).ecs.entities[0]);
                        }
                        assert(taken == occupied(seeding.entities, point, floor_id, world)) by {
                            if occupied(seeding.entities, point, floor_id, world) {
                                let j = choose|j: int|
                                    0 <= j < seeding.entities.len() && (
                                    #[trigger] seeding.entities[j]).stands_at(point, floor_id, world);
                                assert(self.ecs.entities[j] == seeding.entities[j]);
                            }
                            if taken {
                                let j = choose|j: int|
                                    0 <= j < self.ecs.entities.len() && (
                                    #[trigger] self.ecs.entities[j]).stands_at(point, floor_id, world);
                                if j >= first {
                                    let i = j - first;
                                    assert(placed(
                                        self.ecs.entities[first + i],
                                        Entity { id: (first_id + i) as u64 },
                                        done[i],
                                        floor_id,
                                    ));
                                    if i < before_plane.len() {
                                        assert(done[i] == before_plane[i]);
                                        assert(before_plane[i].world.index() < w);
                                    } else {
                                        assert(done[i] == here[i - before_plane.len()]);
                                        assert(here[i - before_plane.len()].point
                                            != listed[idx as int]);
                                    }
                                    assert(false);
                                } else {
                                    assert(self.ecs.entities[j] == seeding.entities[j]);
                                }
                            }
                        }
                        assert((taken || under_player) == seeding.taken(world, point));
                    }
                    if !taken && !under_player {
                        let pick = draw_index(&mut rng, 2);
                        let ghost before = self.ecs;
                        self.ecs.spawn_monster(&templates[pick], point, floor_id, world);
                        spawned += 1;
                        proof {
                            let n = before.entities.len() as int;
                            let rec = self.ecs.entities[n];
                            let placement = Placement { world, point, pick: pick as int };
                            assert(bestiary(world)[pick as int] == templates[pick as int]);
                            assert(newcomer(rec, floor_id, self.dungeon));
                            assert(stands_alone(self.ecs.entities@, n)) by {
                                assert forall|j: int| 0 <= j < n implies !(
                                #[trigger] self.ecs.entities[j]).stands_at(point, floor_id, world) by {
                                    assert(self.ecs.entities[j] == before.entities[j]);
                                }
                            }
                            assert forall|i: int|
                                first <= i < self.ecs.entities.len() implies newcomer(
                                #[trigger] self.ecs.entities[i],
                                floor_id,
                                self.dungeon,
                            ) && stands_alone(self.ecs.entities@, i) by {
                                if i < n {
                                    assert(self.ecs.entities[i] == before.entities[i]);
                                    assert(stands_alone(before.entities@, i));
                                    assert forall|j: int| 0 <= j < i implies !(
                                    #[trigger] self.ecs.entities[j]).stands_at(
                                        self.ecs.entities[i].position->0.point,
                                        self.ecs.entities[i].position->0.floor,
                                        self.ecs.entities[i].position->0.world,
                                    ) by {
                                        assert(self.ecs.entities[j] == before.entities[j]);
                                    }
                                }
                            }
                            crate::ecs::store::lemma_descends_chain(
                                old(self).ecs.entities@,
                                old(self).ecs.next_entity,
                                before.entities@,
                                before.next_entity,
                                self.ecs.entities@,
                            );
                            let old_here = here;
                            let old_done = done;
                            here = here.push(placement);
                            done = done.push(placement);
                            assert(done =~= before_plane + here);
                            let rest = seeding.plane_spawns(
                                world,
                                walkable@,
                                generator_state(rng),
                                target - spawned,
                                u64::MAX - self.ecs.next_entity,
                            );
                            assert(old_here + (seq![placement] + rest.placements) =~= here
                                + rest.placements);
                            assert forall|i: int| 0 <= i < done.len() implies placed(
                                #[trigger] self.ecs.entities[first + i],
                                Entity { id: (first_id + i) as u64 },
                                done[i],
                                floor_id,
                            ) by {
                                if i < old_done.len() {
                                    assert(self.ecs.entities[first + i] == before.entities[first + i]);
                                    assert(done[i] == old_done[i]);
                                }
                            }
                            assert forall|i: int, k: int|
                                0 <= i < here.len() && 0 <= k < walkable.len() implies (
                            #[trigger] here[i]).point != #[trigger] walkable[k] by {
                                if i < old_here.len() {
                                    assert(here[i] == old_here[i]);
                                }
                            }
                            assert forall|i: int| 0 <= i < here.len() implies (
                            #[trigger] here[i]).world == world by {
                                if i < old_here.len() {
                                    assert(here[i] == old_here[i]);
                                }
                            }
                        }
                    }
                }
                proof {
                    let rest = seeding.plane_spawns(
                        world,
                        walkable@,
                        generator_state(rng),
                        target - spawned,
                        u64::MAX - self.ecs.next_entity,
                    );
                    assert(rest.placements =~= Seq::<Placement>::empty());
                    assert(here_total.placements =~= here);
                    assert(here_total.generator == generator_state(rng));
                    assert(target == seeding.wanted(w as int));
                    let start = seeding.start_of(w as nat, state0, room0);
                    assert(here_total == seeding.part_from(w as int, start));
                    assert(seeding.part(w as nat, state0, room0) == here_total);
                    assert(done =~= seeding.spawns_upto((w + 1) as nat, state0, room0));
                    if walkable.len() == 0 {
                        assert(seeding.free_points(world, walkable@) == 0);
                    }
                    assert(seeding.plane_filled(w as nat, old(self).ecs.next_entity));
                    assert forall|i: int| 0 <= i < done.len() implies (
                    #[trigger] done[i]).world.index() < w + 1 by {
                        if i < before_plane.len() {
                            assert(done[i] == before_plane[i]);
                        } else {
                            assert(done[i] == here[i - before_plane.len()]);
                        }
                    }
                }
                w += 1;
            }
        }
        proof {
            assert(done =~= seeding.plan(old(self).ecs.next_entity));
        }
        self.seeded_floors.insert(floor_id.0);
    }
}

} // verus!
