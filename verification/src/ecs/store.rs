//! Entities and the record of components that each one carries.

use vstd::prelude::*;
use crate::ecs::components::{
    Actor, CombatStats, IntentStep, Inventory, Monster, MonsterBrain, MonsterTag, PlaneAttunements,
    PlayerTag, Position, Renderable, Viewshed, WorldAffinity,
};
use crate::geometry::Point;
use crate::map::world::{FloorId, World};

verus! {

/// The identity of an entity. No two entities of one store share it, and
/// it is not given out again after the entity is gone.
#[derive(Clone, Copy, Debug, PartialEq, Eq, Structural, Hash)]
pub struct Entity {
    pub id: u64,
}

/// An entity with whatever components are attached to it.
#[derive(Clone, Debug)]
pub struct EntityRecord {
    pub entity: Entity,
    pub position: Option<Position>,
    pub renderable: Option<Renderable>,
    pub viewshed: Option<Viewshed>,
    pub actor: Option<Actor>,
    pub affinity: Option<WorldAffinity>,
    pub attunements: Option<PlaneAttunements>,
    pub intent: Option<IntentStep>,
    pub player: Option<PlayerTag>,
    pub monster: Option<Monster>,
    pub brain: Option<MonsterBrain>,
    pub monster_tag: Option<MonsterTag>,
    pub stats: Option<CombatStats>,
    pub inventory: Option<Inventory>,
}

impl EntityRecord {
    /// Whether nothing is attached to the entity.
    pub open spec fn is_bare(self) -> bool {
        &&& self.position is None
        &&& self.renderable is None
        &&& self.viewshed is None
        &&& self.actor is None
        &&& self.affinity is None
        &&& self.attunements is None
        &&& self.intent is None
        &&& self.player is None
        &&& self.monster is None
        &&& self.brain is None
        &&& self.monster_tag is None
        &&& self.stats is None
        &&& self.inventory is None
    }

    /// Whether the entity stands on `point` of the given plane.
    pub open spec fn stands_at(self, point: Point, floor: FloorId, world: World) -> bool {
        match self.position {
            Some(pos) => pos.point == point && pos.on(floor, world),
            None => false,
        }
    }

    /// Whether the entity stands somewhere on the given plane.
    pub open spec fn stands_on(self, floor: FloorId, world: World) -> bool {
        match self.position {
            Some(pos) => pos.on(floor, world),
            None => false,
        }
    }

    /// Whether the entity is drawn on the given plane, the player being
    /// drawn only if `include_player` says so.
    pub open spec fn shown_on(self, floor: FloorId, world: World, include_player: bool) -> bool {
        self.stands_on(floor, world) && self.renderable is Some && (include_player
            || self.player is None)
    }

    /// Whether the monster behaviour steers the entity on the given plane.
    pub open spec fn roams_on(self, floor: FloorId, world: World) -> bool {
        self.stands_on(floor, world) && self.monster_tag is Some && self.brain is Some
    }

    /// The name under which the entity appears in the log.
    pub open spec fn log_name(self) -> Seq<char> {
        match self.monster {
            Some(m) => m.name@,
            None => crate::messages::nameless(),
        }
    }

    /// An entity with nothing attached.
    pub fn bare(entity: Entity) -> (rec: Self)
        ensures
            rec.entity == entity,
            rec.is_bare(),
    {
        EntityRecord {
            entity,
            position: None,
            renderable: None,
            viewshed: None,
            actor: None,
            affinity: None,
            attunements: None,
            intent: None,
            player: None,
            monster: None,
            brain: None,
            monster_tag: None,
            stats: None,
            inventory: None,
        }
    }

    /// Whether the entity stands on `point` of the given plane.
    pub fn is_at(&self, point: Point, floor: FloorId, world: World) -> (r: bool)
        ensures
            r == self.stands_at(point, floor, world),
    {
        match &self.position {
            Some(pos) => pos.point == point && pos.is_on(floor, world),
            None => false,
        }
    }

    /// Whether the entity stands somewhere on the given plane.
    pub fn is_on(&self, floor: FloorId, world: World) -> (r: bool)
        ensures
            r == self.stands_on(floor, world),
    {
        match &self.position {
            Some(pos) => pos.is_on(floor, world),
            None => false,
        }
    }

    /// The name under which the entity appears in the log.
    pub fn name_for_log(&self) -> (name: String)
        ensures
            name@ == self.log_name(),
    {
        match &self.monster {
            Some(m) => m.name.clone(),
            None => crate::messages::owned("foe"),
        }
    }
}

/// Whether the two stores hold the same entities in the same order, the
/// same one of them being the player.
pub open spec fn same_roster(pre: Seq<EntityRecord>, post: Seq<EntityRecord>) -> bool {
    &&& post.len() == pre.len()
    &&& forall|i: int|
        0 <= i < pre.len() ==> (#[trigger] post[i]).entity == pre[i].entity && post[i].player
            == pre[i].player
}

/// Whether every entity stands on the plane on which it stood: between
/// `pre` and `post` nobody has changed floor or plane, come to stand
/// somewhere or ceased to.
pub open spec fn same_planes(pre: Seq<EntityRecord>, post: Seq<EntityRecord>) -> bool {
    &&& post.len() == pre.len()
    &&& forall|i: int|
        0 <= i < pre.len() ==> match (#[trigger] post[i]).position {
            Some(now) => pre[i].position is Some && now.on(
                pre[i].position->0.floor,
                pre[i].position->0.world,
            ),
            None => pre[i].position is None,
        }
}

/// Whether every entity that stands somewhere stands on one of the first
/// `floors` floors.
pub open spec fn housed(entities: Seq<EntityRecord>, floors: int) -> bool {
    forall|i: int|
        0 <= i < entities.len() ==> match (#[trigger] entities[i]).position {
            Some(pos) => pos.floor.0 < floors,
            None => true,
        }
}

/// Whether `post` houses its entities wherever `pre` does: every floor on
/// which an entity of `post` stands is one on which an entity of `pre`
/// stands, or the floor `onto`.
#[verifier::opaque]
pub open spec fn stays_housed(
    pre: Seq<EntityRecord>,
    onto: Option<FloorId>,
    post: Seq<EntityRecord>,
) -> bool {
    forall|floors: int|
        #[trigger] housed(pre, floors) && (match onto {
            Some(floor) => floor.0 < floors,
            None => true,
        }) ==> housed(post, floors)
}

/// Whether the first entity of the store, if it stands somewhere, stands
/// on the given plane.
pub open spec fn leader_on(entities: Seq<EntityRecord>, floor: FloorId, world: World) -> bool {
    entities.len() >= 1 && match entities[0].position {
        Some(pos) => pos.on(floor, world),
        None => true,
    }
}

/// Entities that keep their planes stay housed.
pub proof fn lemma_same_planes_housed(pre: Seq<EntityRecord>, post: Seq<EntityRecord>)
    requires
        same_planes(pre, post),
    ensures
        stays_housed(pre, None, post),
{
    reveal(stays_housed);
    assert forall|floors: int| #[trigger] housed(pre, floors) implies housed(post, floors) by {
        assert forall|i: int| 0 <= i < post.len() implies match (#[trigger] post[i]).position {
            Some(pos) => pos.floor.0 < floors,
            None => true,
        } by {
            assert(match pre[i].position {
                Some(pos) => pos.floor.0 < floors,
                None => true,
            });
        }
    }
}

/// A store that does not change stays housed.
pub proof fn lemma_unchanged_stays_housed(entities: Seq<EntityRecord>, onto: Option<FloorId>)
    ensures
        stays_housed(entities, onto, entities),
{
    reveal(stays_housed);
}

/// A store whose entities keep their positions, or lose them with their
/// entity, stays housed: every position in `post` is a position in `pre`.
pub proof fn lemma_positions_kept_housed(pre: Seq<EntityRecord>, post: Seq<EntityRecord>)
    requires
        forall|i: int|
            0 <= i < post.len() ==> exists|j: int|
                0 <= j < pre.len() && (#[trigger] pre[j]).position == (#[trigger] post[i]).position,
    ensures
        stays_housed(pre, None, post),
{
    reveal(stays_housed);
    assert forall|floors: int| #[trigger] housed(pre, floors) implies housed(post, floors) by {
        assert forall|i: int| 0 <= i < post.len() implies match (#[trigger] post[i]).position {
            Some(pos) => pos.floor.0 < floors,
            None => true,
        } by {
            let j = choose|j: int|
                0 <= j < pre.len() && (#[trigger] pre[j]).position == post[i].position;
            assert(match pre[j].position {
                Some(pos) => pos.floor.0 < floors,
                None => true,
            });
        }
    }
}

/// Entities that stay housed are housed on as many floors as before, as
/// long as the floor they may have come onto is among them.
pub proof fn lemma_stays_housed(
    pre: Seq<EntityRecord>,
    onto: Option<FloorId>,
    post: Seq<EntityRecord>,
    floors: int,
)
    requires
        stays_housed(pre, onto, post),
        housed(pre, floors),
        match onto {
            Some(floor) => floor.0 < floors,
            None => true,
        },
    ensures
        housed(post, floors),
{
    reveal(stays_housed);
}

/// Staying housed carries over a chain of changes.
pub proof fn lemma_stays_housed_chain(
    first: Seq<EntityRecord>,
    onto: Option<FloorId>,
    second: Seq<EntityRecord>,
    third: Seq<EntityRecord>,
)
    requires
        stays_housed(first, onto, second),
        stays_housed(second, onto, third) || stays_housed(second, None, third),
    ensures
        stays_housed(first, onto, third),
{
    reveal(stays_housed);
}

/// Whether the hit points of every entity lie between 0 and its maximum.
pub open spec fn stats_sound(entities: Seq<EntityRecord>) -> bool {
    forall|i: int|
        0 <= i < entities.len() ==> match (#[trigger] entities[i]).stats {
            Some(s) => s.wf(),
            None => true,
        }
}

/// Whether `entity` is in the store.
pub open spec fn holds(entities: Seq<EntityRecord>, entity: Entity) -> bool {
    exists|i: int| 0 <= i < entities.len() && (#[trigger] entities[i]).entity == entity
}

/// Whether every entity of `post` was in `pre` already or has been made
/// since, `next` being the first identity that `pre` had not given out.
pub open spec fn descends(pre: Seq<EntityRecord>, next: u64, post: Seq<EntityRecord>) -> bool {
    forall|i: int|
        0 <= i < post.len() ==> holds(pre, (#[trigger] post[i]).entity) || post[i].entity.id
            >= next
}

/// An entity that has left the store does not come back: when every
/// entity of the later store descends from the earlier one, an identity
/// that the earlier store had given out and no longer held is not held by
/// the later store either.
pub proof fn lemma_gone_stays_gone(
    pre: Seq<EntityRecord>,
    next: u64,
    post: Seq<EntityRecord>,
    entity: Entity,
)
    requires
        descends(pre, next, post),
        !holds(pre, entity),
        entity.id < next,
    ensures
        !holds(post, entity),
{
}

/// Descent carries over a chain of changes, as long as identities are
/// only ever given out upward.
pub proof fn lemma_descends_chain(
    first: Seq<EntityRecord>,
    first_next: u64,
    second: Seq<EntityRecord>,
    second_next: u64,
    third: Seq<EntityRecord>,
)
    requires
        descends(first, first_next, second),
        descends(second, second_next, third),
        first_next <= second_next,
    ensures
        descends(first, first_next, third),
{
    assert forall|i: int| 0 <= i < third.len() implies holds(first, (#[trigger] third[i]).entity)
        || third[i].entity.id >= first_next by {
        if holds(second, third[i].entity) {
            let j = choose|j: int| 0 <= j < second.len() && (#[trigger] second[j]).entity
                == third[i].entity;
            assert(holds(first, second[j].entity) || second[j].entity.id >= first_next);
        }
    }
}

/// Stores with the same roster hold the same entities.
pub proof fn lemma_same_roster_descends(pre: Seq<EntityRecord>, next: u64, post: Seq<EntityRecord>)
    requires
        same_roster(pre, post),
    ensures
        descends(pre, next, post),
{
    assert forall|i: int| 0 <= i < post.len() implies holds(pre, (#[trigger] post[i]).entity) by {
        assert(pre[i].entity == post[i].entity);
    }
}

/// The first entity found on a point, if any, is in the store and stands there.
pub proof fn lemma_occupant_stands(
    entities: Seq<EntityRecord>,
    point: Point,
    floor: FloorId,
    world: World,
    start: int,
)
    requires
        0 <= start,
    ensures
        match occupant_from(entities, point, floor, world, start) {
            Some(i) => start <= i < entities.len() && entities[i].stands_at(point, floor, world),
            None => true,
        },
    decreases entities.len() - start,
{
    if start < entities.len() && !entities[start].stands_at(point, floor, world) {
        lemma_occupant_stands(entities, point, floor, world, start + 1);
    }
}

/// An entity that is not in the store is not found on any point.
pub proof fn lemma_absent_is_not_found(
    entities: Seq<EntityRecord>,
    entity: Entity,
    point: Point,
    floor: FloorId,
    world: World,
)
    requires
        !holds(entities, entity),
    ensures
        match occupant(entities, point, floor, world) {
            Some(i) => 0 <= i < entities.len() && entities[i].entity != entity,
            None => true,
        },
{
    lemma_occupant_stands(entities, point, floor, world, 0);
}

/// Whether some entity stands on `point` of the given plane.
pub open spec fn occupied(
    entities: Seq<EntityRecord>,
    point: Point,
    floor: FloorId,
    world: World,
) -> bool {
    exists|i: int| 0 <= i < entities.len() && (#[trigger] entities[i]).stands_at(point, floor, world)
}

/// Whether some monster holds a pending step.
pub open spec fn monster_pending(entities: Seq<EntityRecord>) -> bool {
    exists|i: int|
        0 <= i < entities.len() && (#[trigger] entities[i]).monster_tag is Some
            && entities[i].intent is Some
}

/// The place in the store, from `start` on, of the first entity that
/// stands on `point` of the given plane.
pub open spec fn occupant_from(
    entities: Seq<EntityRecord>,
    point: Point,
    floor: FloorId,
    world: World,
    start: int,
) -> Option<int>
    decreases entities.len() - start,
{
    if start < 0 || start >= entities.len() {
        None
    } else if entities[start].stands_at(point, floor, world) {
        Some(start)
    } else {
        occupant_from(entities, point, floor, world, start + 1)
    }
}

/// The place in the store of the first entity that stands on `point` of
/// the given plane.
pub open spec fn occupant(
    entities: Seq<EntityRecord>,
    point: Point,
    floor: FloorId,
    world: World,
) -> Option<int> {
    occupant_from(entities, point, floor, world, 0)
}

/// The place in the store of the first entity that stands on `point` of
/// the given plane.
pub fn index_at(entities: &Vec<EntityRecord>, point: Point, floor: FloorId, world: World) -> (r:
    Option<usize>)
    ensures
        match r {
            Some(i) => occupant(entities@, point, floor, world) == Some(i as int) && i
                < entities.len() && entities[i as int].stands_at(point, floor, world),
            None => occupant(entities@, point, floor, world) is None && !occupied(
                entities@,
                point,
                floor,
                world,
            ),
        },
{
    let mut i: usize = 0;
    while i < entities.len()
        invariant
            i <= entities.len(),
            forall|j: int| 0 <= j < i ==> !(#[trigger] entities[j]).stands_at(point, floor, world),
            occupant(entities@, point, floor, world) == occupant_from(
                entities@,
                point,
                floor,
                world,
                i as int,
            ),
        decreases entities.len() - i,
    {
        if entities[i].is_at(point, floor, world) {
            return Some(i);
        }
        i += 1;
    }
    None
}

/// A copy of `points`.
pub fn copy_points(points: &Vec<Point>) -> (copy: Vec<Point>)
    ensures
        copy@ == points@,
{
    let mut copy: Vec<Point> = Vec::new();
    let mut i: usize = 0;
    while i < points.len()
        invariant
            i <= points.len(),
            copy@ == points@.take(i as int),
        decreases points.len() - i,
    {
        copy.push(points[i]);
        assert(points@.take(i + 1) =~= points@.take(i as int).push(points[i as int]));
        i += 1;
    }
    assert(points@.take(points.len() as int) =~= points@);
    copy
}

} // verus!
