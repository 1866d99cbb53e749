//! Taking the stairs to another floor.

use vstd::prelude::*;
use crate::ecs::store::{descends, same_roster, EntityRecord};
use crate::ecs::world::EcsWorld;
use crate::game::state::RainbowRogueState;
use crate::map::dungeon::Dungeon;
use crate::map::tile::Tile;
use crate::map::world::FloorId;
use crate::messages::{
    floor_shaped, floor_shaped_line, need_down_stair, need_down_stair_line, need_up_stair,
    need_up_stair_line, prism_lock, prism_lock_line, surface, surface_line, travelled,
    travelled_line, void, void_line,
};

verus! {

/// The deepest floor there can be.
pub const DEEPEST_FLOOR: u32 = 0xffff_fffe;

impl RainbowRogueState {
    /// The tile on which the player stands.
    pub open spec fn footing(self) -> Option<Tile> {
        self.dungeon.floors[self.active_floor.0 as int].plane(self.active_world).tile(
            self.ecs.hero_position().point,
        )
    }

    /// Why the player cannot take the stairs by `delta` floors, if so: for
    /// want of a direction, of a floor above the surface, of ground under
    /// the feet, of the right stair, or of a floor with the number asked
    /// for. The line that says so, if one is said.
    pub open spec fn stairs_refusal(self, delta: i32) -> Option<Seq<Seq<char>>> {
        if delta == 0 {
            Some(Seq::empty())
        } else if delta < 0 && self.active_floor.0 == 0 {
            Some(seq![surface_line()])
        } else if self.footing() is None {
            Some(seq![void_line()])
        } else if delta > 0 && self.footing()->0.tag != Tile::TAG_STAIR_DOWN {
            Some(seq![need_down_stair_line()])
        } else if delta < 0 && self.footing()->0.tag != Tile::TAG_STAIR_UP {
            Some(seq![need_up_stair_line()])
        } else if self.active_floor.0 + delta < 0 {
            Some(seq![prism_lock_line()])
        } else if self.active_floor.0 + delta > DEEPEST_FLOOR {
            Some(Seq::empty())
        } else {
            None
        }
    }

    /// Whether the way from `pre` to `post` over the stairs by `delta`
    /// floors leads through these states: `made`, in which the floor
    /// arrived at exists; `seeded`, in which it has its monsters if it is
    /// new; `placed`, in which the player stands at the arrival point,
    /// seeing nothing yet; and `seen`, in which the player has looked around.
    pub open spec fn stairs_taken(
        pre: Self,
        delta: i32,
        made: Self,
        seeded: Self,
        placed: Self,
        seen: Self,
        post: Self,
    ) -> bool {
        let target = FloorId((pre.active_floor.0 + delta) as u32);
        let created = target.0 >= pre.dungeon.floors.len();
        &&& Dungeon::grown(pre.dungeon, target, made.dungeon)
        &&& Self::wrote(
            RainbowRogueState { dungeon: made.dungeon, ..pre },
            made,
            if created {
                seq![floor_shaped_line(target.0 as int)]
            } else {
                Seq::empty()
            },
        )
        &&& if created {
            Self::monsters_seeded(made, target, seeded)
        } else {
            seeded == made
        }
        &&& placed == (RainbowRogueState {
            active_floor: target,
            ecs: placed.ecs,
            last_move_attempt: None,
            visible_tiles: placed.visible_tiles,
            ..seeded
        })
        &&& placed.visible_tiles@ == Seq::<crate::geometry::Point>::empty()
        &&& placed.ecs == (EcsWorld { entities: placed.ecs.entities, ..seeded.ecs })
        &&& placed.ecs.entities@ == seeded.ecs.entities@.update(
            0,
            EntityRecord {
                intent: None,
                ..EcsWorld::relocated(
                    seeded.ecs.hero(),
                    (RainbowRogueState { active_floor: target, ..seeded }).arrival(delta > 0),
                    target,
                    pre.active_world,
                )
            },
        )
        &&& Self::sighted(placed, seen)
        &&& Self::wrote(
            seen.depth_recorded(target),
            post,
            seq![travelled_line(delta > 0, target.0 as int)],
        )
    }

    /// Whether `post` is `pre` after the player has tried the stairs by
    /// `delta` floors. A refusal says why and takes no turn. Otherwise the
    /// floor arrived at is generated and given its monsters if it is new,
    /// the player is put at its arrival point and looks around, and the
    /// depth reached is noted.
    pub open spec fn floor_shifted(pre: Self, delta: i32, post: Self, acted: bool) -> bool {
        match pre.stairs_refusal(delta) {
            Some(lines) => !acted && Self::wrote(pre, post, lines),
            None => acted && exists|made: Self, seeded: Self, placed: Self, seen: Self|
                #[trigger] Self::stairs_taken(pre, delta, made, seeded, placed, seen, post),
        }
    }

    /// The player tries the stairs: down for a positive `delta`, up for a
    /// negative one. Returns whether this takes a turn.
    pub fn shift_floor(&mut self, delta: i32) -> (acted: bool)
        requires
            old(self).wf(),
        ensures
            final(self).wf(),
            Self::floor_shifted(*old(self), delta, *final(self), acted),
            descends(
                old(self).ecs.entities@,
                old(self).ecs.next_entity,
                final(self).ecs.entities@,
            ),
    {
        proof {
            crate::ecs::store::lemma_same_roster_descends(
                old(self).ecs.entities@,
                old(self).ecs.next_entity,
                self.ecs.entities@,
            );
            assert(self.history() =~= self.history() + Seq::<Seq<char>>::empty());
        }
        if delta == 0 {
            return false;
        }
        if delta < 0 && self.active_floor.0 == 0 {
            self.push_log_entry(surface());
            return false;
        }
        let tile = match self.tile_under_player() {
            Some(tile) => tile,
            None => {
                self.push_log_entry(void());
                return false;
            },
        };
        let required_tag = if delta > 0 {
            Tile::TAG_STAIR_DOWN
        } else {
            Tile::TAG_STAIR_UP
        };
        if tile.tag != required_tag {
            if delta > 0 {
                self.push_log_entry(need_down_stair());
            } else {
                self.push_log_entry(need_up_stair());
            }
            return false;
        }
        let target: i64 = self.active_floor.0 as i64 + delta as i64;
        if target < 0 {
            self.push_log_entry(prism_lock());
            return false;
        }
        if target > DEEPEST_FLOOR as i64 {
            return false;
        }
        self.take_stairs(delta, FloorId(target as u32));
        true
    }

    /// Leads the player over the stairs to the floor `target`.
    fn take_stairs(&mut self, delta: i32, target: FloorId)
        requires
            old(self).wf(),
            delta != 0,
            target.0 == old(self).active_floor.0 + delta,
            target.0 <= DEEPEST_FLOOR,
        ensures
            final(self).wf(),
            exists|made: Self, seeded: Self, placed: Self, seen: Self|
                #[trigger] Self::stairs_taken(*old(self), delta, made, seeded, placed, seen, *final(self)),
            descends(
                old(self).ecs.entities@,
                old(self).ecs.next_entity,
                final(self).ecs.entities@,
            ),
    {
        proof {
            assert(self.history() =~= self.history() + Seq::<Seq<char>>::empty());
        }
        let created = self.dungeon.ensure_floor(target);
        if created {
            self.push_log_entry(floor_shaped(target.0));
        }
        let ghost made = *self;
        self.settle_floor(created, target);
        let ghost seeded = *self;
        self.arrive(delta > 0, target);
        let ghost placed = *self;
        self.update_visibility();
        let ghost seen = *self;
        self.record_depth(self.active_floor);
        self.push_log_entry(travelled(delta > 0, self.active_floor.0));
        proof {
            crate::ecs::store::lemma_same_roster_descends(
                seeded.ecs.entities@,
                seeded.ecs.next_entity,
                self.ecs.entities@,
            );
            crate::ecs::store::lemma_descends_chain(
                old(self).ecs.entities@,
                old(self).ecs.next_entity,
                seeded.ecs.entities@,
                seeded.ecs.next_entity,
                self.ecs.entities@,
            );
            assert(Self::stairs_taken(*old(self), delta, made, seeded, placed, seen, *self));
        }
    }

    /// Gives the floor `target` its monsters if it has just been generated.
    fn settle_floor(&mut self, created: bool, target: FloorId)
        requires
            old(self).wf(),
            target.0 < old(self).dungeon.floors.len(),
        ensures
            final(self).wf(),
            final(self).dungeon == old(self).dungeon,
            final(self).active_floor == old(self).active_floor,
            if created {
                Self::monsters_seeded(*old(self), target, *final(self))
            } else {
                *final(self) == *old(self)
            },
            descends(
                old(self).ecs.entities@,
                old(self).ecs.next_entity,
                final(self).ecs.entities@,
            ),
            old(self).ecs.next_entity <= final(self).ecs.next_entity,
    {
        if created {
            self.seed_floor_monsters(target);
        } else {
            proof {
                crate::ecs::store::lemma_same_roster_descends(
                    old(self).ecs.entities@,
                    old(self).ecs.next_entity,
                    self.ecs.entities@,
                );
            }
        }
    }

    /// Puts the player at the arrival point of the floor `target`.
    fn arrive(&mut self, descending: bool, target: FloorId)
        requires
            old(self).wf(),
            target.0 < old(self).dungeon.floors.len(),
        ensures
            final(self).wf(),
            *final(self) == (RainbowRogueState {
                active_floor: target,
                ecs: final(self).ecs,
                last_move_attempt: None,
                visible_tiles: final(self).visible_tiles,
                ..*old(self)
            }),
            final(self).visible_tiles@ == Seq::<crate::geometry::Point>::empty(),
            final(self).ecs == (EcsWorld { entities: final(self).ecs.entities, ..old(self).ecs }),
            final(self).ecs.entities@ == old(self).ecs.entities@.update(
                0,
                EntityRecord {
                    intent: None,
                    ..EcsWorld::relocated(
                        old(self).ecs.hero(),
                        (RainbowRogueState { active_floor: target, ..*old(self) }).arrival(
                            descending,
                        ),
                        target,
                        old(self).active_world,
                    )
                },
            ),
            same_roster(old(self).ecs.entities@, final(self).ecs.entities@),
    {
        self.active_floor = target;
        let arrival = self.arrival_point(descending);
        self.ecs.set_player_position(arrival, self.active_floor, self.active_world);
        self.ecs.clear_player_intent();
        self.last_move_attempt = None;
        self.visible_tiles.clear();
    }
}

} // verus!
