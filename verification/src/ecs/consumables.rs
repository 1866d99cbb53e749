//! The use of a consumable from the player's inventory.

use vstd::prelude::*;
use crate::dice::{generator_state, pick_bound, range_step};
use crate::ecs::components::{InventoryEffect, InventorySlot};
use crate::ecs::resources::texts;
use crate::ecs::store::{
    descends, holds, leader_on, lemma_same_planes_housed, lemma_same_roster_descends,
    lemma_stays_housed_chain, lemma_unchanged_stays_housed, same_planes, same_roster, stays_housed,
    EntityRecord,
};
use crate::ecs::world::EcsWorld;
use crate::map::dungeon::Dungeon;
use crate::map::world::{FloorId, World};
use crate::messages::{
    activated, activated_line, blink, blink_line, cleanse, cleanse_line, fizzle, fizzle_line,
    no_recovery, no_recovery_line, recovered, recovered_line,
};

verus! {

/// What an effect does: the store it leaves, the lines it writes after the
/// line that names the consumable, and the state it leaves the generator in.
pub ghost struct Outcome {
    pub entities: Seq<EntityRecord>,
    pub lines: Seq<Seq<char>>,
    pub generator: int,
}

/// The slots after one use of slot `idx`: the slot has one use less, and
/// is gone, the later slots moving up, once it has none left.
pub open spec fn spent_slots(slots: Seq<InventorySlot>, idx: int) -> Seq<InventorySlot> {
    if slots[idx].uses_remaining - 1 <= 0 {
        slots.remove(idx)
    } else {
        slots.update(
            idx,
            InventorySlot { uses_remaining: (slots[idx].uses_remaining - 1) as i32, ..slots[idx] },
        )
    }
}

impl EcsWorld {
    /// Whether the player carries a consumable with a use left in slot `slot_index`.
    pub open spec fn usable_slot(self, slot_index: usize) -> bool {
        match self.hero().inventory {
            Some(inv) => slot_index < inv.slots.len()
                && inv.slots[slot_index as int].uses_remaining > 0,
            None => false,
        }
    }

    /// What healing the player by `amount` does. A player without combat
    /// stats is not healed, and nothing is said.
    pub open spec fn heal_outcome(self, amount: i32) -> Outcome {
        match self.hero().stats {
            Some(s) => Outcome {
                entities: self.entities@.update(
                    0,
                    EntityRecord { stats: Some(s.healed(amount as int)), ..self.hero() },
                ),
                lines: if s.healed(amount as int).hp - s.hp > 0 {
                    seq![recovered_line(s.healed(amount as int).hp - s.hp)]
                } else {
                    seq![no_recovery_line()]
                },
                generator: generator_state(self.rng),
            },
            None => Outcome {
                entities: self.entities@,
                lines: Seq::empty(),
                generator: generator_state(self.rng),
            },
        }
    }

    /// What a blink over `range` cells does: the player lands on the free
    /// point that the generator picks, or stays when there is none.
    pub open spec fn blink_outcome(
        self,
        range: i32,
        dungeon: Dungeon,
        floor: FloorId,
        world: World,
    ) -> Outcome {
        let spots = self.leap(range, dungeon, floor, world).spots();
        let bound = pick_bound(spots.len() as int);
        if spots.len() == 0 {
            Outcome {
                entities: self.entities@,
                lines: seq![fizzle_line()],
                generator: generator_state(self.rng),
            }
        } else {
            let dest = spots[range_step(generator_state(self.rng), 0, bound).0];
            Outcome {
                entities: self.entities@.update(
                    0,
                    Self::relocated(self.hero(), dest, floor, world),
                ),
                lines: seq![blink_line(dest.x as int, dest.y as int)],
                generator: range_step(generator_state(self.rng), 0, bound).1,
            }
        }
    }

    /// What a nova does.
    pub open spec fn nova_outcome(self, damage: i32, radius: i32, floor: FloorId, world: World) -> Outcome {
        let blast = self.blast(damage, radius, floor, world);
        Outcome {
            entities: blast.survivors(self.entities@, self.entities.len() as nat),
            lines: blast.lines(self.entities@),
            generator: generator_state(self.rng),
        }
    }

    /// What `effect` does when the player sets it off on the given plane.
    pub open spec fn effect_outcome(
        self,
        effect: InventoryEffect,
        dungeon: Dungeon,
        floor: FloorId,
        world: World,
    ) -> Outcome {
        match effect {
            InventoryEffect::Heal { amount } => self.heal_outcome(amount),
            InventoryEffect::Cleanse => Outcome {
                entities: self.entities@,
                lines: seq![cleanse_line()],
                generator: generator_state(self.rng),
            },
            InventoryEffect::Blink { range } => self.blink_outcome(range, dungeon, floor, world),
            InventoryEffect::Nova { damage, radius } => self.nova_outcome(
                damage,
                radius,
                floor,
                world,
            ),
        }
    }

    /// Sets `effect` off and returns the lines it writes.
    pub fn apply_effect(
        &mut self,
        effect: InventoryEffect,
        dungeon: &Dungeon,
        floor: FloorId,
        world: World,
    ) -> (lines: Vec<String>)
        requires
            old(self).wf(),
        ensures
            final(self).wf(),
            final(self).entities@ == old(self).effect_outcome(
                effect,
                *dungeon,
                floor,
                world,
            ).entities,
            texts(lines@) == old(self).effect_outcome(effect, *dungeon, floor, world).lines,
            generator_state(final(self).rng) == old(self).effect_outcome(
                effect,
                *dungeon,
                floor,
                world,
            ).generator,
            *final(self) == (EcsWorld {
                entities: final(self).entities,
                rng: final(self).rng,
                ..*old(self)
            }),
            final(self).entities.len() >= 1,
            final(self).entities[0].inventory == old(self).entities[0].inventory,
            descends(old(self).entities@, old(self).next_entity, final(self).entities@),
            stays_housed(old(self).entities@, Some(floor), final(self).entities@),
            leader_on(old(self).entities@, floor, world) ==> leader_on(
                final(self).entities@,
                floor,
                world,
            ),
            match effect {
                InventoryEffect::Blink { range } => Self::blink_settled(
                    *old(self),
                    *final(self),
                    range,
                    *dungeon,
                    floor,
                    world,
                ),
                _ => true,
            },
    {
        proof {
            lemma_same_roster_descends(old(self).entities@, old(self).next_entity, self.entities@);
            lemma_unchanged_stays_housed(old(self).entities@, Some(floor));
        }
        let mut lines: Vec<String> = Vec::new();
        match effect {
            InventoryEffect::Heal { amount } => {
                match &mut self.entities[0].stats {
                    Some(player_stats) => {
                        let gained = player_stats.heal(amount);
                        if gained > 0 {
                            lines.push(recovered(gained as i64));
                        } else {
                            lines.push(no_recovery());
                        }
                    },
                    None => {},
                }
                assert(self.entities@ =~= old(self).heal_outcome(amount).entities);
                assert(texts(lines@) =~= old(self).heal_outcome(amount).lines);
                proof {
                    assert(same_roster(old(self).entities@, self.entities@));
                    lemma_same_roster_descends(
                        old(self).entities@,
                        old(self).next_entity,
                        self.entities@,
                    );
                    assert(same_planes(old(self).entities@, self.entities@));
                    lemma_same_planes_housed(old(self).entities@, self.entities@);
                    lemma_stays_housed_chain(
                        old(self).entities@,
                        Some(floor),
                        old(self).entities@,
                        self.entities@,
                    );
                }
            },
            InventoryEffect::Cleanse => {
                lines.push(cleanse());
                assert(texts(lines@) =~= seq![cleanse_line()]);
            },
            InventoryEffect::Blink { range } => {
                match self.blink_destination(range, dungeon, floor, world) {
                    Some(dest) => {
                        self.set_player_position(dest, floor, world);
                        lines.push(blink(dest.x, dest.y));
                        assert(texts(lines@) =~= seq![blink_line(dest.x as int, dest.y as int)]);
                        proof {
                            assert(same_roster(old(self).entities@, self.entities@));
                            lemma_same_roster_descends(
                                old(self).entities@,
                                old(self).next_entity,
                                self.entities@,
                            );
                        }
                    },
                    None => {
                        lines.push(fizzle());
                        assert(texts(lines@) =~= seq![fizzle_line()]);
                    },
                }
            },
            InventoryEffect::Nova { damage, radius } => {
                lines = self.spectral_nova(damage, radius, floor, world);
                proof {
                    lemma_stays_housed_chain(
                        old(self).entities@,
                        Some(floor),
                        old(self).entities@,
                        self.entities@,
                    );
                }
            },
        }
        lines
    }

    /// Whether `post` and the lines `told` are what the use of the
    /// consumable in slot `slot_index` makes of `pre`. A slot that is empty
    /// or used up tells nothing and changes nothing. Otherwise the first
    /// line names the consumable, the effect does the rest, and the slot
    /// loses a use.
    pub open spec fn consumed(
        pre: EcsWorld,
        slot_index: usize,
        dungeon: Dungeon,
        floor: FloorId,
        world: World,
        post: EcsWorld,
        told: Option<Seq<Seq<char>>>,
    ) -> bool {
        match told {
            Some(lines) => {
                let slots = pre.hero().inventory->0.slots@;
                let slot = slots[slot_index as int];
                let outcome = pre.effect_outcome(slot.effect, dungeon, floor, world);
                &&& pre.usable_slot(slot_index)
                &&& lines == seq![activated_line(slot.name@)] + outcome.lines
                &&& generator_state(post.rng) == outcome.generator
                &&& post.entities.len() == outcome.entities.len()
                &&& forall|i: int|
                    1 <= i < outcome.entities.len() ==> post.entities[i] == outcome.entities[i]
                &&& post.entities[0] == (EntityRecord {
                    inventory: post.entities[0].inventory,
                    ..outcome.entities[0]
                })
                &&& post.entities[0].inventory is Some
                &&& post.entities[0].inventory->0.slots@ == spent_slots(slots, slot_index as int)
                &&& post == (EcsWorld { entities: post.entities, rng: post.rng, ..pre })
                &&& match slot.effect {
                    InventoryEffect::Blink { range } => Self::blink_settled(
                        pre,
                        post,
                        range,
                        dungeon,
                        floor,
                        world,
                    ),
                    _ => true,
                }
            },
            None => !pre.usable_slot(slot_index) && post == pre,
        }
    }

    /// Uses the consumable in slot `slot_index`: sets its effect off, takes
    /// one use off the slot and drops the slot once it is used up. Returns
    /// the lines to tell, or nothing, with nothing changed, when the slot is
    /// empty or used up.
    pub fn use_consumable(
        &mut self,
        slot_index: usize,
        dungeon: &Dungeon,
        floor: FloorId,
        world: World,
    ) -> (r: Option<Vec<String>>)
        requires
            old(self).wf(),
        ensures
            final(self).wf(),
            Self::consumed(
                *old(self),
                slot_index,
                *dungeon,
                floor,
                world,
                *final(self),
                match r {
                    Some(lines) => Some(texts(lines@)),
                    None => None,
                },
            ),
            descends(old(self).entities@, old(self).next_entity, final(self).entities@),
            stays_housed(old(self).entities@, Some(floor), final(self).entities@),
            leader_on(old(self).entities@, floor, world) ==> leader_on(
                final(self).entities@,
                floor,
                world,
            ),
    {
        proof {
            lemma_same_roster_descends(old(self).entities@, old(self).next_entity, self.entities@);
            lemma_unchanged_stays_housed(old(self).entities@, Some(floor));
        }
        let (name, effect) = match &self.entities[0].inventory {
            Some(inventory) => {
                if slot_index >= inventory.slots.len() {
                    return None;
                }
                let slot = &inventory.slots[slot_index];
                if slot.uses_remaining <= 0 {
                    return None;
                }
                (slot.name.clone(), slot.effect)
            },
            None => {
                return None;
            },
        };
        let mut log: Vec<String> = Vec::new();
        log.push(activated(name.as_str()));
        let mut told = self.apply_effect(effect, dungeon, floor, world);
        let ghost after_effect = self.entities@;
        let ghost first = texts(log@);
        let ghost rest = texts(told@);
        let mut j: usize = 0;
        while j < told.len()
            invariant
                j <= told.len(),
                rest == texts(told@),
                texts(log@) == first + rest.take(j as int),
            decreases told.len() - j,
        {
            let ghost before = texts(log@);
            log.push(told[j].clone());
            assert(texts(log@) =~= before.push(told[j as int]@));
            assert(rest.take(j + 1) =~= rest.take(j as int).push(told[j as int]@));
            j += 1;
        }
        assert(rest.take(told.len() as int) =~= rest);
        assert(first =~= seq![activated_line(name@)]);
        proof {
            assert(same_roster(after_effect, after_effect));
        }
        match &mut self.entities[0].inventory {
            Some(inventory) => {
                if inventory.slots[slot_index].uses_remaining <= 1 {
                    inventory.slots.remove(slot_index);
                } else {
                    inventory.slots[slot_index].uses_remaining -= 1;
                }
                assert(inventory.slots@ =~= spent_slots(
                    old(self).hero().inventory->0.slots@,
                    slot_index as int,
                ));
            },
            None => {},
        }
        proof {
            assert(same_roster(after_effect, self.entities@));
            assert(same_planes(after_effect, self.entities@));
            lemma_same_planes_housed(after_effect, self.entities@);
            lemma_stays_housed_chain(
                old(self).entities@,
                Some(floor),
                after_effect,
                self.entities@,
            );
            assert forall|i: int| 0 <= i < self.entities.len() implies holds(
                old(self).entities@,
                (#[trigger] self.entities[i]).entity,
            ) || self.entities[i].entity.id >= old(self).next_entity by {
                assert(self.entities[i].entity == after_effect[i].entity);
            }
        }
        Some(log)
    }

    /// Whether `post` is where a blink over `range` cells may leave the
    /// player of `pre`: on a point of the given plane that was walkable and
    /// free of entities, within range; or where the player stood, when no
    /// such point exists.
    pub open spec fn blink_settled(
        pre: EcsWorld,
        post: EcsWorld,
        range: i32,
        dungeon: Dungeon,
        floor: FloorId,
        world: World,
    ) -> bool {
        let leap = pre.leap(range, dungeon, floor, world);
        if leap.spots().len() == 0 {
            post.hero().position == pre.hero().position
        } else {
            match pre.hero().position {
                Some(pos) => {
                    &&& post.hero().position is Some
                    &&& post.hero().position->0.on(floor, world)
                    &&& leap.lands_on(post.hero().position->0.point)
                },
                None => post.hero().position is None,
            }
        }
    }

    /// A nova with no monster in reach says so in a single line and
    /// changes nothing: no hit points, no entity.
    pub proof fn lemma_nova_out_of_reach(self, damage: i32, radius: i32, floor: FloorId, world: World)
        requires
            !self.blast(damage, radius, floor, world).burns_any(self.entities@),
        ensures
            self.nova_outcome(damage, radius, floor, world).lines == seq![
                crate::messages::harmless_line(),
            ],
            self.nova_outcome(damage, radius, floor, world).entities == self.entities@,
    {
        let blast = self.blast(damage, radius, floor, world);
        blast.lemma_out_of_reach(self.entities@, self.entities@.len());
        assert(self.entities@.take(self.entities@.len() as int) =~= self.entities@);
    }
}

} // verus!
