//! One resolution of the turn: a pass of the simulation and what follows
//! from it for the run.

use vstd::prelude::*;
use crate::ecs::store::{descends, same_roster};
use crate::ecs::systems::FieldOfView;
use crate::ecs::world::EcsWorld;
use crate::game::state::RainbowRogueState;

verus! {

impl RainbowRogueState {
    /// Whether a resolution of the turn leads from `pre` to `post` through
    /// these states: `a`, after the pass of the simulation on the active
    /// plane; `b`, after the report on the player's step; `c`, after the
    /// player has looked around; `d`, after the combat log has been moved
    /// to the message log; and `e`, after the look at the player's health.
    pub open spec fn turn_runs<S: FieldOfView>(
        pre: Self,
        action_taken: bool,
        sight: S,
        a: Self,
        b: Self,
        c: Self,
        d: Self,
        e: Self,
        post: Self,
    ) -> bool {
        let layer = pre.dungeon.floors[pre.active_floor.0 as int].plane(pre.active_world);
        &&& a == (RainbowRogueState {
            frame: if action_taken {
                EcsWorld::next_turn(pre.frame)
            } else {
                pre.frame
            },
            last_player_point: Some(pre.ecs.hero_position().point),
            ecs: a.ecs,
            ..pre
        })
        &&& EcsWorld::advanced(pre.ecs, layer, pre.active_floor, pre.active_world, sight, a.ecs)
        &&& same_roster(pre.ecs.entities@, a.ecs.entities@)
        &&& a.ecs.turn == EcsWorld::next_turn(pre.ecs.turn)
        &&& a.ecs.player == pre.ecs.player
        &&& a.ecs.next_entity == pre.ecs.next_entity
        &&& Self::move_resolved(a, pre.ecs.hero_position().point, b)
        &&& Self::sighted(b, c)
        &&& Self::flushed(c, d)
        &&& Self::health_checked(d, e)
        &&& post == (RainbowRogueState { needs_prime_tick: false, ..e })
    }

    /// Whether `post` can follow from `pre` by one resolution of the turn.
    pub open spec fn turned<S: FieldOfView>(
        pre: Self,
        action_taken: bool,
        sight: S,
        post: Self,
    ) -> bool {
        exists|a: Self, b: Self, c: Self, d: Self, e: Self| #[trigger]
            Self::turn_runs(pre, action_taken, sight, a, b, c, d, e, post)
    }

    /// Resolves the turn: runs one pass of the simulation on the active
    /// plane, reports on the player's step, lets the player look around,
    /// moves the combat log to the message log and looks at the player's
    /// health. `action_taken` says whether the turn is the player's.
    pub fn run_turn<S: FieldOfView>(&mut self, action_taken: bool, sight: &S)
        requires
            old(self).wf(),
        ensures
            final(self).wf(),
            Self::turned(*old(self), action_taken, *sight, *final(self)),
            descends(
                old(self).ecs.entities@,
                old(self).ecs.next_entity,
                final(self).ecs.entities@,
            ),
            final(self).ecs.next_entity == old(self).ecs.next_entity,
            final(self).run_state == old(self).run_state,
            final(self).quit_requested == old(self).quit_requested,
    {
        if action_taken {
            self.frame = if self.frame == u64::MAX {
                0
            } else {
                self.frame + 1
            };
        }
        let previous_point = self.ecs.player_point();
        self.last_player_point = Some(previous_point);
        self.ecs.advance(
            &self.dungeon.floors[self.active_floor.0 as usize].layers[self.active_world.spectrum_index()],
            self.active_floor,
            self.active_world,
            sight,
        );
        let ghost a = *self;
        self.resolve_move_attempt(previous_point);
        let ghost b = *self;
        self.update_visibility();
        let ghost c = *self;
        self.flush_combat_log();
        let ghost d = *self;
        self.check_health_warning();
        let ghost e = *self;
        self.needs_prime_tick = false;
        proof {
            assert(same_roster(a.ecs.entities@, e.ecs.entities@));
            assert(same_roster(old(self).ecs.entities@, self.ecs.entities@));
            crate::ecs::store::lemma_same_roster_descends(
                old(self).ecs.entities@,
                old(self).ecs.next_entity,
                self.ecs.entities@,
            );
            assert(Self::turn_runs(*old(self), action_taken, *sight, a, b, c, d, e, *self));
        }
    }
}

} // verus!
