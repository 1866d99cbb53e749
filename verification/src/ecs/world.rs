//! The simulation state: every entity, the generator and the combat log.

use vstd::prelude::*;
use bracket_random::prelude::RandomNumberGenerator;
use crate::data::items::{starter_consumables, starter_kit, ConsumableEffect, ConsumableTemplate};
use crate::data::monsters::MonsterTemplate;
use crate::dice::{generator_state, seeded_generator, seeded_state};
use crate::ecs::components::{
    attack_damage, Actor, CombatStats, IntentStep, Inventory, InventoryEffect, InventorySlot,
    Monster, MonsterBrain, MonsterTag, PlaneAttunements, PlayerTag, Position, Renderable, Viewshed,
    WorldAffinity,
};
use crate::ecs::resources::{CombatLog, MovementContext};
use crate::ecs::store::{
    copy_points, descends, holds, housed, index_at, leader_on, lemma_positions_kept_housed,
    lemma_same_planes_housed, lemma_same_roster_descends, lemma_unchanged_stays_housed,
    monster_pending, occupant, occupied, same_planes, same_roster, stats_sound, stays_housed,
    Entity, EntityRecord,
};
use crate::ecs::systems::{
    hero_leads, EnergySystem, FieldOfView, FovSystem, MovementSystem, WanderSystem,
};
use crate::geometry::Point;
use crate::map::layer::MapLayer;
use crate::map::world::{plane_color, world_color, FloorId, World};
use crate::messages::{collapse, collapse_line, owned, strike, strike_line};

verus! {

/// The seed of the generator that steers wandering and blinking.
pub const WORLD_SEED: u64 = 0x51ec5ead;

/// What a blow of the player did.
#[derive(Clone, Debug)]
pub struct AttackReport {
    pub hit: String,
    pub kill: Option<String>,
}

/// The lines that the use of a consumable wrote.
#[derive(Clone, Debug)]
pub struct ConsumableMessage {
    pub lines: Vec<String>,
}

/// A blow of the player: the place of the target in the store, and the damage.
pub ghost struct Blow {
    pub target: int,
    pub damage: int,
}

/// The simulation state.
pub struct EcsWorld {
    /// Every entity, the player first, the others in the order they were made.
    pub entities: Vec<EntityRecord>,
    /// The identity that the next new entity gets.
    pub next_entity: u64,
    pub player: Entity,
    pub rng: RandomNumberGenerator,
    pub combat_log: CombatLog,
    pub turn: u64,
}

/// The effect of a carried consumable that a pattern's effect stands for.
pub open spec fn carried_effect(effect: ConsumableEffect) -> InventoryEffect {
    match effect {
        ConsumableEffect::Heal { amount } => InventoryEffect::Heal { amount },
        ConsumableEffect::Cleanse => InventoryEffect::Cleanse,
        ConsumableEffect::Blink { range } => InventoryEffect::Blink { range },
        ConsumableEffect::Nova { damage, radius } => InventoryEffect::Nova { damage, radius },
    }
}

/// Whether `slot` is a fresh consumable made after `template`, good for one use.
pub open spec fn made_after(slot: InventorySlot, template: ConsumableTemplate) -> bool {
    &&& slot.name@ == template.name@
    &&& slot.description@ == template.description@
    &&& slot.uses_remaining == 1
    &&& slot.effect == carried_effect(template.effect)
    &&& slot.color == template.color
}

/// Whether `rec` is the player as a new run makes it.
pub open spec fn fresh_player(
    rec: EntityRecord,
    entity: Entity,
    spawn: Point,
    floor: FloorId,
    world: World,
) -> bool {
    &&& rec.entity == entity
    &&& rec.position == Some(Position { point: spawn, floor, world })
    &&& rec.renderable == Some(Renderable { glyph: 64, color: plane_color(world), order: 2 })
    &&& rec.viewshed is Some
    &&& rec.viewshed->0.radius == 8
    &&& rec.viewshed->0.dirty
    &&& rec.viewshed->0.visible@ == Seq::<Point>::empty()
    &&& rec.viewshed->0.remembered@ == Seq::<Point>::empty()
    &&& rec.actor == Some(Actor { energy: 0, speed: 60 })
    &&& rec.stats == Some(CombatStats { max_hp: 20, hp: 20, power: 5, defense: 1 })
    &&& rec.affinity == Some(WorldAffinity { primary: world, resist: None, vulnerable: None })
    &&& rec.attunements is Some
    &&& rec.attunements->0.unlocked@ == seq![world]
    &&& rec.attunements->0.perks == 0
    &&& rec.player is Some
    &&& rec.intent is None
    &&& rec.monster is None
    &&& rec.brain is None
    &&& rec.monster_tag is None
    &&& rec.inventory is Some
    &&& rec.inventory->0.slots.len() == starter_kit(world).len()
    &&& forall|i: int|
        0 <= i < starter_kit(world).len() ==> made_after(
            #[trigger] rec.inventory->0.slots[i],
            starter_kit(world)[i],
        )
}

/// The glyph that stands for a character: its code, cut to 16 bits.
pub open spec fn glyph_of(c: char) -> u16 {
    ((c as u32) % 0x1_0000) as u16
}

/// Whether `rec` is a monster as it is made after `template`.
pub open spec fn fresh_monster(
    rec: EntityRecord,
    entity: Entity,
    template: MonsterTemplate,
    point: Point,
    floor: FloorId,
    world: World,
) -> bool {
    &&& rec.entity == entity
    &&& rec.position == Some(Position { point, floor, world })
    &&& rec.renderable == Some(
        Renderable { glyph: glyph_of(template.glyph), color: template.color, order: 1 },
    )
    &&& rec.monster is Some
    &&& rec.monster->0.name@ == template.name@
    &&& rec.brain == Some(MonsterBrain { wander_chance: template.wander_chance })
    &&& rec.stats == Some(CombatStats::fresh(template.hp as int, template.power, template.defense))
    &&& rec.affinity == Some(WorldAffinity { primary: world, resist: None, vulnerable: None })
    &&& rec.monster_tag is Some
    &&& rec.viewshed is None
    &&& rec.actor is None
    &&& rec.attunements is None
    &&& rec.intent is None
    &&& rec.player is None
    &&& rec.inventory is None
}

fn glyph_for(c: char) -> (g: u16)
    ensures
        g == glyph_of(c),
{
    ((c as u32) % 0x1_0000) as u16
}

fn fresh_slot(template: &ConsumableTemplate) -> (slot: InventorySlot)
    ensures
        made_after(slot, *template),
{
    InventorySlot {
        name: owned(template.name),
        description: owned(template.description),
        uses_remaining: 1,
        effect: match template.effect {
            ConsumableEffect::Heal { amount } => InventoryEffect::Heal { amount },
            ConsumableEffect::Cleanse => InventoryEffect::Cleanse,
            ConsumableEffect::Blink { range } => InventoryEffect::Blink { range },
            ConsumableEffect::Nova { damage, radius } => InventoryEffect::Nova { damage, radius },
        },
        color: template.color,
    }
}

impl EcsWorld {
    /// The player leads the store, no two entities share an identity,
    /// every identity in use is below the next to be given out, and all
    /// hit points are in range.
    pub open spec fn wf(self) -> bool {
        &&& hero_leads(self.entities@)
        &&& self.entities[0].entity == self.player
        &&& forall|i: int|
            0 <= i < self.entities.len() ==> (#[trigger] self.entities[i]).entity.id
                < self.next_entity
        &&& forall|i: int, j: int|
            0 <= i < j < self.entities.len() ==> (#[trigger] self.entities[i]).entity != (
            #[trigger] self.entities[j]).entity
        &&& stats_sound(self.entities@)
    }

    /// The player's record.
    pub open spec fn hero(self) -> EntityRecord {
        self.entities[0]
    }

    /// Where the player stands; the origin of the surface floor's red plane
    /// for a player without a position.
    pub open spec fn hero_position(self) -> Position {
        match self.hero().position {
            Some(pos) => pos,
            None => Position { point: Point { x: 0, y: 0 }, floor: FloorId(0), world: World::Red },
        }
    }

    /// A new simulation with the player alone in it.
    pub fn new(spawn: Point, floor: FloorId, world: World) -> (ecs: Self)
        ensures
            ecs.wf(),
            ecs.turn == 0,
            ecs.entities.len() == 1,
            ecs.player == (Entity { id: 0 }),
            ecs.next_entity == 1,
            fresh_player(ecs.entities[0], ecs.player, spawn, floor, world),
            generator_state(ecs.rng) == seeded_state(WORLD_SEED),
            ecs.combat_log.lines() == Seq::<Seq<char>>::empty(),
    {
        let player = Entity { id: 0 };
        let hero = Self::spawn_player(player, spawn, floor, world);
        let mut entities: Vec<EntityRecord> = Vec::new();
        entities.push(hero);
        EcsWorld {
            entities,
            next_entity: 1,
            player,
            rng: seeded_generator(WORLD_SEED),
            combat_log: CombatLog::default(),
            turn: 0,
        }
    }

    /// Makes the player's record.
    pub fn spawn_player(entity: Entity, spawn: Point, floor: FloorId, world_affinity: World) -> (rec:
        EntityRecord)
        ensures
            fresh_player(rec, entity, spawn, floor, world_affinity),
    {
        let kit = starter_consumables(world_affinity);
        let mut slots: Vec<InventorySlot> = Vec::new();
        let mut i: usize = 0;
        while i < kit.len()
            invariant
                i <= kit.len(),
                kit@ == starter_kit(world_affinity),
                slots.len() == i,
                forall|k: int| 0 <= k < i ==> made_after(#[trigger] slots[k], kit[k]),
            decreases kit.len() - i,
        {
            slots.push(fresh_slot(&kit[i]));
            i += 1;
        }
        let mut unlocked: Vec<World> = Vec::new();
        unlocked.push(world_affinity);
        assert(unlocked@ =~= seq![world_affinity]);
        let mut rec = EntityRecord::bare(entity);
        rec.position = Some(Position { point: spawn, floor, world: world_affinity });
        rec.renderable = Some(Renderable { glyph: 64, color: world_color(world_affinity), order: 2 });
        rec.viewshed = Some(
            Viewshed { radius: 8, dirty: true, visible: Vec::new(), remembered: Vec::new() },
        );
        rec.actor = Some(Actor { energy: 0, speed: 60 });
        rec.stats = Some(CombatStats { max_hp: 20, hp: 20, power: 5, defense: 1 });
        rec.affinity = Some(
            WorldAffinity { primary: world_affinity, resist: None, vulnerable: None },
        );
        rec.attunements = Some(PlaneAttunements { unlocked, perks: 0 });
        rec.player = Some(PlayerTag);
        rec.inventory = Some(Inventory { slots });
        rec
    }

    /// Whether the store can take one more entity.
    pub open spec fn has_room(self) -> bool {
        self.next_entity < u64::MAX
    }

    /// Makes a new entity with nothing attached and returns its identity,
    /// which no entity has had before.
    pub fn create_entity(&mut self) -> (entity: Entity)
        requires
            old(self).wf(),
            old(self).has_room(),
        ensures
            final(self).wf(),
            entity == (Entity { id: old(self).next_entity }),
            !holds(old(self).entities@, entity),
            final(self).entities.len() == old(self).entities.len() + 1,
            old(self).entities@.is_prefix_of(final(self).entities@),
            final(self).entities[old(self).entities.len() as int].entity == entity,
            final(self).entities[old(self).entities.len() as int].is_bare(),
            *final(self) == (EcsWorld {
                entities: final(self).entities,
                next_entity: (old(self).next_entity + 1) as u64,
                ..*old(self)
            }),
            descends(old(self).entities@, old(self).next_entity, final(self).entities@),
            stays_housed(old(self).entities@, None, final(self).entities@),
    {
        let entity = Entity { id: self.next_entity };
        self.entities.push(EntityRecord::bare(entity));
        self.next_entity = self.next_entity + 1;
        proof {
            reveal(stays_housed);
            let pre = old(self).entities@;
            let post = self.entities@;
            assert forall|floors: int| #[trigger] housed(pre, floors) implies housed(post, floors) by {
                assert forall|i: int| 0 <= i < post.len() implies match (#[trigger] post[i]).position {
                    Some(pos) => pos.floor.0 < floors,
                    None => true,
                } by {
                    if i < pre.len() {
                        assert(post[i] == pre[i]);
                    }
                }
            }
            assert forall|i: int| 0 <= i < self.entities.len() implies holds(
                old(self).entities@,
                (#[trigger] self.entities[i]).entity,
            ) || self.entities[i].entity.id >= old(self).next_entity by {
                if i < old(self).entities.len() {
                    assert(old(self).entities[i].entity == self.entities[i].entity);
                }
            }
        }
        entity
    }

    /// The place of `entity` in the store.
    pub fn index_of(&self, entity: Entity) -> (r: Option<usize>)
        ensures
            match r {
                Some(i) => i < self.entities.len() && self.entities[i as int].entity == entity,
                None => !holds(self.entities@, entity),
            },
    {
        let mut i: usize = 0;
        while i < self.entities.len()
            invariant
                i <= self.entities.len(),
                forall|k: int| 0 <= k < i ==> (#[trigger] self.entities[k]).entity != entity,
            decreases self.entities.len() - i,
        {
            if self.entities[i].entity == entity {
                return Some(i);
            }
            i += 1;
        }
        None
    }

    /// Removes `entity` with all that is attached to it. The player is
    /// never removed. Returns whether the entity was there and is gone.
    pub fn delete_entity(&mut self, entity: Entity) -> (removed: bool)
        requires
            old(self).wf(),
        ensures
            final(self).wf(),
            removed == (holds(old(self).entities@, entity) && entity != old(self).player),
            !removed ==> *final(self) == *old(self),
            removed ==> !holds(final(self).entities@, entity) && exists|i: int|
                1 <= i < old(self).entities.len() && (#[trigger] old(self).entities[i]).entity
                    == entity && final(self).entities@ == old(self).entities@.remove(i),
            *final(self) == (EcsWorld { entities: final(self).entities, ..*old(self) }),
            descends(old(self).entities@, old(self).next_entity, final(self).entities@),
            stays_housed(old(self).entities@, None, final(self).entities@),
    {
        proof {
            lemma_same_roster_descends(old(self).entities@, old(self).next_entity, self.entities@);
            lemma_unchanged_stays_housed(old(self).entities@, None);
        }
        match self.index_of(entity) {
            Some(i) => {
                if i == 0 {
                    false
                } else {
                    self.remove_at(i);
                    true
                }
            },
            None => false,
        }
    }

    /// Removes the entity at place `i` of the store, which is not the player.
    fn remove_at(&mut self, i: usize)
        requires
            old(self).wf(),
            1 <= i < old(self).entities.len(),
        ensures
            final(self).wf(),
            final(self).entities@ == old(self).entities@.remove(i as int),
            !holds(final(self).entities@, old(self).entities[i as int].entity),
            *final(self) == (EcsWorld { entities: final(self).entities, ..*old(self) }),
            descends(old(self).entities@, old(self).next_entity, final(self).entities@),
            stays_housed(old(self).entities@, None, final(self).entities@),
    {
        let ghost gone = self.entities[i as int].entity;
        self.entities.remove(i);
        proof {
            let pre = old(self).entities@;
            let post = self.entities@;
            assert forall|k: int| 0 <= k < post.len() implies exists|j: int|
                0 <= j < pre.len() && (#[trigger] pre[j]).position == (#[trigger] post[k]).position by {
                if k < i {
                    assert(pre[k].position == post[k].position);
                } else {
                    assert(pre[k + 1].position == post[k].position);
                }
            }
            lemma_positions_kept_housed(pre, post);
            assert forall|k: int| 0 <= k < self.entities.len() implies (
            #[trigger] self.entities[k]).entity != gone && holds(
                old(self).entities@,
                self.entities[k].entity,
            ) by {
                if k < i {
                    assert(self.entities[k] == old(self).entities[k]);
                } else {
                    assert(self.entities[k] == old(self).entities[k + 1]);
                }
            }
        }
    }

    /// Adds a monster made after `template` on `point` of the given plane.
    pub fn spawn_monster(
        &mut self,
        template: &MonsterTemplate,
        point: Point,
        floor: FloorId,
        world: World,
    )
        requires
            old(self).wf(),
            old(self).has_room(),
        ensures
            final(self).wf(),
            final(self).entities.len() == old(self).entities.len() + 1,
            forall|i: int|
                0 <= i < old(self).entities.len() ==> final(self).entities[i] == old(self).entities[i],
            fresh_monster(
                final(self).entities[old(self).entities.len() as int],
                Entity { id: old(self).next_entity },
                *template,
                point,
                floor,
                world,
            ),
            final(self).next_entity == old(self).next_entity + 1,
            descends(old(self).entities@, old(self).next_entity, final(self).entities@),
            stays_housed(old(self).entities@, Some(floor), final(self).entities@),
            final(self).player == old(self).player,
            final(self).rng == old(self).rng,
            final(self).combat_log == old(self).combat_log,
            final(self).turn == old(self).turn,
    {
        self.create_entity();
        let last = self.entities.len() - 1;
        let rec = &mut self.entities[last];
        rec.position = Some(Position { point, floor, world });
        rec.renderable = Some(
            Renderable { glyph: glyph_for(template.glyph), color: template.color, order: 1 },
        );
        rec.monster = Some(Monster { name: owned(template.name) });
        rec.brain = Some(MonsterBrain { wander_chance: template.wander_chance });
        rec.stats = Some(CombatStats::at_full_health(template.hp, template.power, template.defense));
        rec.affinity = Some(WorldAffinity { primary: world, resist: None, vulnerable: None });
        rec.monster_tag = Some(MonsterTag);
        proof {
            reveal(stays_housed);
            let pre = old(self).entities@;
            let post = self.entities@;
            assert forall|floors: int| #[trigger] housed(pre, floors) && floor.0 < floors implies housed(
                post,
                floors,
            ) by {
                assert forall|i: int| 0 <= i < post.len() implies match (#[trigger] post[i]).position {
                    Some(pos) => pos.floor.0 < floors,
                    None => true,
                } by {
                    if i < pre.len() {
                        assert(post[i] == pre[i]);
                    }
                }
            }
            assert forall|i: int| 0 <= i < self.entities.len() implies holds(
                old(self).entities@,
                (#[trigger] self.entities[i]).entity,
            ) || self.entities[i].entity.id >= old(self).next_entity by {
                if i < old(self).entities.len() {
                    assert(old(self).entities[i].entity == self.entities[i].entity);
                }
            }
        }
    }

    /// The first entity that stands on `point` of the given plane.
    pub fn entity_at(&self, point: Point, floor: FloorId, world: World) -> (r: Option<Entity>)
        ensures
            match r {
                Some(e) => occupant(self.entities@, point, floor, world) is Some && e
                    == self.entities[occupant(self.entities@, point, floor, world)->0].entity
                    && holds(self.entities@, e),
                None => occupant(self.entities@, point, floor, world) is None && !occupied(
                    self.entities@,
                    point,
                    floor,
                    world,
                ),
            },
    {
        match index_at(&self.entities, point, floor, world) {
            Some(i) => Some(self.entities[i].entity),
            None => None,
        }
    }

    /// The identity of the player.
    pub fn player_entity(&self) -> (e: Entity)
        ensures
            e == self.player,
    {
        self.player
    }

    /// Where the player stands.
    pub fn player_position(&self) -> (pos: Position)
        requires
            self.wf(),
        ensures
            pos == self.hero_position(),
    {
        match &self.entities[0].position {
            Some(pos) => *pos,
            None => Position { point: Point::new(0, 0), floor: FloorId(0), world: World::Red },
        }
    }

    /// The point on which the player stands.
    pub fn player_point(&self) -> (p: Point)
        requires
            self.wf(),
        ensures
            p == self.hero_position().point,
    {
        self.player_position().point
    }

    /// The player's combat stats.
    pub fn player_stats(&self) -> (stats: Option<CombatStats>)
        requires
            self.wf(),
        ensures
            stats == self.hero().stats,
    {
        self.entities[0].stats
    }

    /// The points the player sees; none for a player without a viewshed.
    pub fn player_visible_tiles(&self) -> (tiles: Vec<Point>)
        requires
            self.wf(),
        ensures
            tiles@ == match self.hero().viewshed {
                Some(vs) => vs.visible@,
                None => Seq::<Point>::empty(),
            },
    {
        match &self.entities[0].viewshed {
            Some(vs) => copy_points(&vs.visible),
            None => Vec::new(),
        }
    }

    /// Queues a step for the player, in place of any it held.
    pub fn queue_player_step(&mut self, delta: Point)
        requires
            old(self).wf(),
        ensures
            final(self).wf(),
            *final(self) == (EcsWorld { entities: final(self).entities, ..*old(self) }),
            final(self).entities@ == old(self).entities@.update(
                0,
                EntityRecord { intent: Some(IntentStep { delta }), ..old(self).hero() },
            ),
            same_planes(old(self).entities@, final(self).entities@),
    {
        self.entities[0].intent = Some(IntentStep { delta });
    }

    /// Drops the step the player holds, if any.
    pub fn clear_player_intent(&mut self)
        requires
            old(self).wf(),
        ensures
            final(self).wf(),
            *final(self) == (EcsWorld { entities: final(self).entities, ..*old(self) }),
            final(self).entities@ == old(self).entities@.update(
                0,
                EntityRecord { intent: None, ..old(self).hero() },
            ),
            same_planes(old(self).entities@, final(self).entities@),
    {
        self.entities[0].intent = None;
    }

    /// Whether some monster holds a pending step.
    pub fn has_monster_intent(&self) -> (r: bool)
        ensures
            r == monster_pending(self.entities@),
    {
        let mut i: usize = 0;
        while i < self.entities.len()
            invariant
                i <= self.entities.len(),
                forall|k: int|
                    0 <= k < i ==> !((#[trigger] self.entities[k]).monster_tag is Some
                        && self.entities[k].intent is Some),
            decreases self.entities.len() - i,
        {
            if self.entities[i].monster_tag.is_some() && self.entities[i].intent.is_some() {
                return true;
            }
            i += 1;
        }
        false
    }

    /// Puts the player on `point` of the given plane, in the colour of that
    /// plane, and marks its view as out of date.
    pub fn set_player_position(&mut self, point: Point, floor: FloorId, world: World)
        requires
            old(self).wf(),
        ensures
            final(self).wf(),
            *final(self) == (EcsWorld { entities: final(self).entities, ..*old(self) }),
            final(self).entities@ == old(self).entities@.update(
                0,
                Self::relocated(old(self).hero(), point, floor, world),
            ),
            stays_housed(old(self).entities@, Some(floor), final(self).entities@),
            leader_on(final(self).entities@, floor, world),
    {
        match &mut self.entities[0].position {
            Some(pos) => {
                pos.point = point;
                pos.floor = floor;
                pos.world = world;
            },
            None => {},
        }
        match &mut self.entities[0].renderable {
            Some(render) => {
                render.color = world_color(world);
            },
            None => {},
        }
        match &mut self.entities[0].viewshed {
            Some(vs) => {
                vs.dirty = true;
            },
            None => {},
        }
        assert(self.entities@ =~= old(self).entities@.update(
            0,
            Self::relocated(old(self).hero(), point, floor, world),
        ));
        proof {
            reveal(stays_housed);
            let pre = old(self).entities@;
            let post = self.entities@;
            assert forall|floors: int| #[trigger] housed(pre, floors) && floor.0 < floors implies housed(
                post,
                floors,
            ) by {
                assert forall|i: int| 0 <= i < post.len() implies match (#[trigger] post[i]).position {
                    Some(pos) => pos.floor.0 < floors,
                    None => true,
                } by {
                    if i > 0 {
                        assert(post[i] == pre[i]);
                    }
                }
            }
        }
    }

    /// The player's record after a relocation to `point` of the given plane.
    pub open spec fn relocated(
        rec: EntityRecord,
        point: Point,
        floor: FloorId,
        world: World,
    ) -> EntityRecord {
        EntityRecord {
            position: match rec.position {
                Some(pos) => Some(Position { point, floor, world }),
                None => None,
            },
            renderable: match rec.renderable {
                Some(r) => Some(Renderable { color: plane_color(world), ..r }),
                None => None,
            },
            viewshed: crate::ecs::systems::dirtied(rec.viewshed),
            ..rec
        }
    }

    /// Hands out the lines of the combat log and leaves the log empty.
    pub fn drain_combat_log(&mut self) -> (lines: Vec<String>)
        ensures
            crate::ecs::resources::texts(lines@) == old(self).combat_log.lines(),
            final(self).combat_log.lines() == Seq::<Seq<char>>::empty(),
            *final(self) == (EcsWorld { combat_log: final(self).combat_log, ..*old(self) }),
    {
        let mut lines: Vec<String> = Vec::new();
        std::mem::swap(&mut lines, &mut self.combat_log.entries);
        assert(self.combat_log.lines() =~= Seq::<Seq<char>>::empty());
        lines
    }
    /// What is drawn of the first `n` entities on the given plane: the point
    /// and the look of each one that is shown, in the order of the store.
    pub open spec fn shown_through(
        entities: Seq<EntityRecord>,
        floor: FloorId,
        world: World,
        include_player: bool,
        n: nat,
    ) -> Seq<(Point, Renderable)>
        decreases n,
    {
        if n == 0 {
            Seq::empty()
        } else {
            let before = Self::shown_through(entities, floor, world, include_player, (n - 1) as nat);
            let rec = entities[n - 1];
            if rec.shown_on(floor, world, include_player) {
                before.push((rec.position->0.point, rec.renderable->0))
            } else {
                before
            }
        }
    }

    /// Everything drawn on the given plane comes from an entity in the store.
    pub proof fn lemma_shown_are_held(
        entities: Seq<EntityRecord>,
        floor: FloorId,
        world: World,
        include_player: bool,
        n: nat,
        k: int,
    )
        requires
            n <= entities.len(),
            0 <= k < Self::shown_through(entities, floor, world, include_player, n).len(),
        ensures
            exists|i: int|
                0 <= i < n && (#[trigger] entities[i]).shown_on(floor, world, include_player)
                    && Self::shown_through(entities, floor, world, include_player, n)[k] == (
                    entities[i].position->0.point,
                    entities[i].renderable->0,
                ),
        decreases n,
    {
        let before = Self::shown_through(entities, floor, world, include_player, (n - 1) as nat);
        if k < before.len() {
            Self::lemma_shown_are_held(entities, floor, world, include_player, (n - 1) as nat, k);
        } else {
            assert(entities[n - 1].shown_on(floor, world, include_player));
        }
    }

    /// The point and the look of every entity drawn on the given plane, in
    /// the order of the store; the player only if `include_player` is set.
    pub fn each_renderable(&self, floor: FloorId, world: World, include_player: bool) -> (shown:
        Vec<(Point, Renderable)>)
        ensures
            shown@ == Self::shown_through(
                self.entities@,
                floor,
                world,
                include_player,
                self.entities.len() as nat,
            ),
    {
        let mut shown: Vec<(Point, Renderable)> = Vec::new();
        let mut i: usize = 0;
        while i < self.entities.len()
            invariant
                i <= self.entities.len(),
                shown@ == Self::shown_through(
                    self.entities@,
                    floor,
                    world,
                    include_player,
                    i as nat,
                ),
            decreases self.entities.len() - i,
        {
            let rec = &self.entities[i];
            if rec.is_on(floor, world) && (include_player || rec.player.is_none()) {
                match (&rec.position, &rec.renderable) {
                    (Some(pos), Some(renderable)) => {
                        shown.push((pos.point, *renderable));
                    },
                    _ => {},
                }
            }
            i += 1;
        }
        shown
    }

    /// The consumables the player carries, each with the number of its slot.
    pub fn player_inventory(&self) -> (slots: Vec<(usize, InventorySlot)>)
        requires
            self.wf(),
        ensures
            match self.hero().inventory {
                Some(inv) => slots.len() == inv.slots.len() && forall|i: int|
                    0 <= i < slots.len() ==> (#[trigger] slots[i]).0 == i && slots[i].1
                        == inv.slots[i],
                None => slots.len() == 0,
            },
    {
        let mut slots: Vec<(usize, InventorySlot)> = Vec::new();
        match &self.entities[0].inventory {
            Some(inv) => {
                let mut i: usize = 0;
                while i < inv.slots.len()
                    invariant
                        i <= inv.slots.len(),
                        slots.len() == i,
                        forall|k: int|
                            0 <= k < i ==> (#[trigger] slots[k]).0 == k && slots[k].1
                                == inv.slots[k],
                    decreases inv.slots.len() - i,
                {
                    let slot = &inv.slots[i];
                    let copy = InventorySlot {
                        name: slot.name.clone(),
                        description: slot.description.clone(),
                        uses_remaining: slot.uses_remaining,
                        effect: slot.effect,
                        color: slot.color,
                    };
                    slots.push((i, copy));
                    i += 1;
                }
            },
            None => {},
        }
        slots
    }

    /// What a blow of the player against the entity on `target_point` does,
    /// if there is a blow: the place of the target in the store and the
    /// damage dealt. There is none when nobody stands there, when it is the
    /// player who stands there, or when either side lacks combat stats.
    pub open spec fn blow_at(self, target_point: Point, floor: FloorId, world: World) -> Option<
        Blow,
    > {
        match occupant(self.entities@, target_point, floor, world) {
            Some(t) => if t != 0 && self.hero().stats is Some && self.entities[t].stats is Some {
                Some(
                    Blow {
                        target: t,
                        damage: attack_damage(
                            self.hero().stats->0.power as int,
                            self.entities[t].stats->0.defense as int,
                        ),
                    },
                )
            } else {
                None
            },
            None => None,
        }
    }

    /// The target of `blow` as the blow leaves it.
    pub open spec fn wounded(self, blow: Blow) -> EntityRecord {
        EntityRecord {
            stats: Some(self.entities[blow.target].stats->0.hurt(blow.damage)),
            ..self.entities[blow.target]
        }
    }

    /// Whether `blow` leaves its target without hit points.
    pub open spec fn blow_kills(self, blow: Blow) -> bool {
        self.wounded(blow).stats->0.hp == 0
    }

    /// The store after `blow`: the target is wounded, or gone if the blow
    /// has left it without hit points.
    pub open spec fn after_blow(self, blow: Blow) -> Seq<EntityRecord> {
        if self.blow_kills(blow) {
            self.entities@.remove(blow.target)
        } else {
            self.entities@.update(blow.target, self.wounded(blow))
        }
    }

    /// What `blow` tells: the hit, and the kill if it is one.
    pub open spec fn blow_lines(self, blow: Blow) -> Seq<Seq<char>> {
        if self.blow_kills(blow) {
            seq![
                strike_line(self.entities[blow.target].log_name(), blow.damage),
                collapse_line(self.entities[blow.target].log_name()),
            ]
        } else {
            seq![strike_line(self.entities[blow.target].log_name(), blow.damage)]
        }
    }

    /// The player strikes whoever stands on `target_point`. A target left
    /// without hit points is removed from the store at once.
    pub fn player_attack(&mut self, target_point: Point, floor: FloorId, world: World) -> (r:
        Option<AttackReport>)
        requires
            old(self).wf(),
        ensures
            final(self).wf(),
            *final(self) == (EcsWorld { entities: final(self).entities, ..*old(self) }),
            descends(old(self).entities@, old(self).next_entity, final(self).entities@),
            stays_housed(old(self).entities@, None, final(self).entities@),
            final(self).entities[0] == old(self).entities[0],
            match r {
                Some(report) => {
                    &&& old(self).blow_at(target_point, floor, world) is Some
                    &&& ({
                        let blow = old(self).blow_at(target_point, floor, world)->0;
                        let target = old(self).entities[blow.target];
                        &&& report.hit@ == strike_line(target.log_name(), blow.damage)
                        &&& final(self).entities@ == old(self).after_blow(blow)
                        &&& if old(self).blow_kills(blow) {
                            &&& report.kill is Some
                            &&& report.kill->0@ == collapse_line(target.log_name())
                            &&& !holds(final(self).entities@, target.entity)
                        } else {
                            report.kill is None
                        }
                    })
                },
                None => {
                    &&& old(self).blow_at(target_point, floor, world) is None
                    &&& final(self).entities@ == old(self).entities@
                },
            },
    {
        proof {
            lemma_same_roster_descends(old(self).entities@, old(self).next_entity, self.entities@);
            lemma_unchanged_stays_housed(old(self).entities@, None);
        }
        let t = match index_at(&self.entities, target_point, floor, world) {
            Some(t) => t,
            None => {
                return None;
            },
        };
        if t == 0 {
            return None;
        }
        let attacker_stats = match self.entities[0].stats {
            Some(s) => s,
            None => {
                return None;
            },
        };
        if self.entities[t].stats.is_none() {
            return None;
        }
        let name = self.entities[t].name_for_log();
        let (damage, fallen) = match &mut self.entities[t].stats {
            Some(target_stats) => {
                let damage = attacker_stats.damage_against(target_stats);
                target_stats.take_damage(damage);
                (damage, target_stats.hp == 0)
            },
            None => {
                return None;
            },
        };
        let mut kill = None;
        let ghost wounded = self.entities@;
        proof {
            assert(same_planes(old(self).entities@, wounded)) by {
                assert forall|i: int| 0 <= i < wounded.len() implies (
                #[trigger] wounded[i]).position == old(self).entities[i].position by {
                    if i != t {
                        assert(wounded[i] == old(self).entities[i]);
                    }
                }
            }
            lemma_same_planes_housed(old(self).entities@, wounded);
        }
        if fallen {
            kill = Some(collapse(name.as_str()));
            self.remove_at(t);
            proof {
                crate::ecs::store::lemma_stays_housed_chain(
                    old(self).entities@,
                    None,
                    wounded,
                    self.entities@,
                );
            }
        }
        proof {
            assert forall|i: int| 0 <= i < self.entities.len() implies holds(
                old(self).entities@,
                (#[trigger] self.entities[i]).entity,
            ) by {
                if fallen && i >= t {
                    assert(old(self).entities[i + 1].entity == self.entities[i].entity);
                } else {
                    assert(old(self).entities[i].entity == self.entities[i].entity);
                }
            }
        }
        Some(AttackReport { hit: strike(name.as_str(), damage), kill })
    }
    /// Whether one pass over the snapshot `ctx` leads from `pre` to `post`
    /// by way of the stores `a`, `b` and `c`: energy makes `a` of the store,
    /// the intent pass `b` of `a`, movement `c` of `b`, and the field of view
    /// pass the final store of `c`.
    pub open spec fn passes_through<S: FieldOfView>(
        pre: EcsWorld,
        post: EcsWorld,
        sight: S,
        ctx: MovementContext,
        a: Seq<EntityRecord>,
        b: Seq<EntityRecord>,
        c: Seq<EntityRecord>,
    ) -> bool {
        &&& EnergySystem::ran(pre.entities@, a)
        &&& WanderSystem::ran(a, ctx, generator_state(pre.rng), b, generator_state(post.rng))
        &&& MovementSystem::ran(
            b,
            ctx,
            c,
            post.combat_log.lines().skip(pre.combat_log.lines().len() as int),
        )
        &&& FovSystem::ran(c, ctx, sight, post.entities@)
    }

    /// Whether `post` can follow from `pre` by one pass on the plane
    /// `layer`: the four systems have run in their fixed order, all on one
    /// snapshot of the plane taken before the first of them.
    pub open spec fn advanced<S: FieldOfView>(
        pre: EcsWorld,
        layer: MapLayer,
        floor: FloorId,
        world: World,
        sight: S,
        post: EcsWorld,
    ) -> bool {
        exists|ctx: MovementContext, a: Seq<EntityRecord>, b: Seq<EntityRecord>, c: Seq<EntityRecord>|
            {
                &&& ctx.mirrors(layer)
                &&& ctx.floor == floor
                &&& ctx.world == world
                &&& ctx.player_point == pre.hero_position().point
                &&& #[trigger] Self::passes_through(pre, post, sight, ctx, a, b, c)
            }
    }

    /// Whether no entity on the given plane holds a pending step: every
    /// step pending there has been taken or found blocked.
    pub open spec fn intents_spent(entities: Seq<EntityRecord>, floor: FloorId, world: World) -> bool {
        forall|i: int|
            0 <= i < entities.len() && (#[trigger] entities[i]).stands_on(floor, world)
                ==> entities[i].intent is None
    }

    /// The number of the turn after `turn`, starting over after the last.
    pub open spec fn next_turn(turn: u64) -> u64 {
        if turn == u64::MAX {
            0
        } else {
            (turn + 1) as u64
        }
    }

    /// Runs one pass of the simulation on the plane `layer`: energy,
    /// monster intent, movement, field of view. `sight` computes what an
    /// entity sees.
    pub fn advance<S: FieldOfView>(
        &mut self,
        layer: &MapLayer,
        floor: FloorId,
        world: World,
        sight: &S,
    )
        requires
            old(self).wf(),
        ensures
            final(self).wf(),
            Self::advanced(*old(self), *layer, floor, world, *sight, *final(self)),
            same_roster(old(self).entities@, final(self).entities@),
            same_planes(old(self).entities@, final(self).entities@),
            descends(old(self).entities@, old(self).next_entity, final(self).entities@),
            old(self).combat_log.lines().is_prefix_of(final(self).combat_log.lines()),
            final(self).turn == Self::next_turn(old(self).turn),
            final(self).player == old(self).player,
            final(self).next_entity == old(self).next_entity,
            Self::intents_spent(final(self).entities@, floor, world),
    {
        let context = MovementContext::from_layer(layer, floor, world, self.player_point());
        EnergySystem.run(&mut self.entities);
        let ghost a = self.entities@;
        WanderSystem.run(&mut self.entities, &context, &mut self.rng);
        let ghost b = self.entities@;
        assert(same_roster(old(self).entities@, b));
        assert(same_planes(old(self).entities@, b));
        MovementSystem.run(&mut self.entities, &context, &mut self.combat_log);
        let ghost c = self.entities@;
        assert(same_roster(old(self).entities@, c));
        assert(same_planes(old(self).entities@, c));
        FovSystem.run(&mut self.entities, &context, sight);
        assert(same_roster(old(self).entities@, self.entities@));
        assert(same_planes(old(self).entities@, self.entities@));
        self.turn = if self.turn == u64::MAX {
            0
        } else {
            self.turn + 1
        };
        assert(Self::passes_through(*old(self), *self, *sight, context, a, b, c));
        proof {
            assert forall|i: int|
                0 <= i < self.entities.len() && (#[trigger] self.entities[i]).stands_on(
                    floor,
                    world,
                ) implies self.entities[i].intent is None by {
                assert(self.entities[i].intent == c[i].intent);
                assert(self.entities[i].position == c[i].position);
                if i >= 1 {
                    assert(c[i] == crate::ecs::systems::resolved(
                        b[i],
                        context,
                        crate::ecs::systems::hero_moved(b[0], context).position,
                    ));
                }
            }
            lemma_same_roster_descends(old(self).entities@, old(self).next_entity, self.entities@);
        }
    }
}

} // verus!
