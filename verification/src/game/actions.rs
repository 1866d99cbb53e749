//! What each of the player's commands does to the run.

use vstd::prelude::*;
use crate::ai::BehaviorContext;
use crate::ecs::components::{CombatStats, IntentStep};
use crate::ecs::resources::texts;
use crate::ecs::store::{
    descends, lemma_same_roster_descends, lemma_stays_housed, same_planes, same_roster,
    EntityRecord,
};
use crate::ecs::world::{AttackReport, EcsWorld};
use crate::game::journal::lemma_logged_one;
use crate::game::state::{deeper, RainbowRogueState, RunStats};
use crate::geometry::Point;
use crate::map::tile::Tile;
use crate::messages::{
    attuned, attuned_line, critical, critical_line, death_line, empty_slot, empty_slot_line,
    stabilized, stabilized_line,
};

verus! {

/// Whether more than half of the hit points are left.
pub open spec fn steady(stats: CombatStats) -> bool {
    stats.max_hp > 0 && 2 * stats.hp > stats.max_hp
}

/// Whether the warning about low health is up after a look at `stats`: it
/// goes up when health is low, and comes down once health is steady again.
pub open spec fn alert_after(alerted: bool, stats: CombatStats) -> bool {
    if stats.low_health() {
        true
    } else if alerted && steady(stats) {
        false
    } else {
        alerted
    }
}

/// What a look at `stats` tells the player about the warning.
pub open spec fn alert_lines(alerted: bool, stats: CombatStats) -> Seq<Seq<char>> {
    if stats.low_health() && !alerted {
        seq![critical_line()]
    } else if !stats.low_health() && alerted && steady(stats) {
        seq![stabilized_line()]
    } else {
        Seq::empty()
    }
}

impl RainbowRogueState {
    /// Whether the player has just run out of hit points.
    pub open spec fn falls(self) -> bool {
        match self.ecs.hero().stats {
            Some(s) => s.hp <= 0 && !self.is_dead,
            None => false,
        }
    }

    /// Whether `post` is `pre` after a look at the player's health.
    pub open spec fn health_checked(pre: Self, post: Self) -> bool {
        &&& post.ecs.entities.len() == pre.ecs.entities.len()
        &&& match pre.ecs.hero().stats {
            Some(s) => {
                &&& post.hp_alerted == alert_after(pre.hp_alerted, s)
                &&& post.is_dead == (pre.is_dead || s.hp <= 0)
                &&& post.history() == pre.history() + alert_lines(pre.hp_alerted, s) + if pre.falls() {
                    seq![death_line()]
                } else {
                    Seq::empty()
                }
                &&& post.log() == crate::game::journal::logged_all(
                    pre.log(),
                    alert_lines(pre.hp_alerted, s) + if pre.falls() {
                        seq![death_line()]
                    } else {
                        Seq::empty()
                    },
                )
                &&& if pre.falls() {
                    &&& post.ecs.entities@ == pre.ecs.entities@.update(
                        0,
                        EntityRecord { intent: None, ..pre.ecs.hero() },
                    )
                    &&& post.last_move_attempt is None
                    &&& post.stats_changed
                    &&& post.run_stats == (RunStats {
                        best_depth: deeper(pre.run_stats.best_depth, pre.run_max_floor),
                        ..pre.run_stats
                    })
                } else {
                    &&& post.ecs == pre.ecs
                    &&& post.last_move_attempt == pre.last_move_attempt
                    &&& post.stats_changed == pre.stats_changed
                    &&& post.run_stats == pre.run_stats
                }
            },
            None => post == pre,
        }
        &&& post == (RainbowRogueState {
            hp_alerted: post.hp_alerted,
            is_dead: post.is_dead,
            ecs: post.ecs,
            last_move_attempt: post.last_move_attempt,
            stats_changed: post.stats_changed,
            run_stats: post.run_stats,
            message_log: post.message_log,
            play_history: post.play_history,
            ..pre
        })
        &&& post.ecs == (EcsWorld { entities: post.ecs.entities, ..pre.ecs })
    }

    /// Looks at the player's health: raises or lifts the warning about low
    /// health, and marks the player as dead on the first look that finds no
    /// hit points left.
    pub fn check_health_warning(&mut self)
        requires
            old(self).wf(),
        ensures
            final(self).wf(),
            Self::health_checked(*old(self), *final(self)),
    {
        let stats = match self.ecs.player_stats() {
            Some(stats) => stats,
            None => {
                return ;
            },
        };
        let low = stats.is_low_health();
        let steady = stats.max_hp > 0 && 2 * (stats.hp as i64) > stats.max_hp as i64;
        proof {
            assert(self.history() =~= self.history() + Seq::<Seq<char>>::empty());
            assert(self.history() =~= self.history() + Seq::<Seq<char>>::empty() + Seq::<
                Seq<char>,
            >::empty());
            assert(Seq::<Seq<char>>::empty() + Seq::<Seq<char>>::empty() =~= Seq::<
                Seq<char>,
            >::empty());
        }
        if low && !self.hp_alerted {
            self.push_log_entry(critical());
            self.hp_alerted = true;
        } else if !low && self.hp_alerted && steady {
            self.push_log_entry(stabilized());
            self.hp_alerted = false;
        }
        proof {
            let alerts = alert_lines(old(self).hp_alerted, stats);
            assert(self.history() =~= old(self).history() + alerts + Seq::<Seq<char>>::empty());
            assert(alerts + Seq::<Seq<char>>::empty() =~= alerts);
            if alerts.len() == 0 {
                assert(alerts =~= Seq::<Seq<char>>::empty());
            } else {
                assert(alerts =~= seq![alerts[0]]);
                crate::game::journal::lemma_logged_one(old(self).log(), alerts[0]);
            }
        }
        if stats.hp <= 0 && !self.is_dead {
            self.on_player_death();
            proof {
                let alerts = alert_lines(old(self).hp_alerted, stats);
                assert(self.history() =~= old(self).history() + alerts + seq![death_line()]);
                crate::game::journal::lemma_logged_concat(
                    old(self).log(),
                    alerts,
                    seq![death_line()],
                );
            }
        }
    }

    /// The tile on which the player stands.
    pub fn tile_under_player(&self) -> (tile: Option<Tile>)
        requires
            self.wf(),
        ensures
            tile == self.dungeon.floors[self.active_floor.0 as int].plane(self.active_world).tile(
                self.ecs.hero_position().point,
            ),
    {
        let point = self.ecs.player_point();
        match self.dungeon.active_layer(self.active_floor, self.active_world) {
            Some(layer) => match layer.tile_at(point) {
                Some(tile) => Some(*tile),
                None => None,
            },
            None => None,
        }
    }

    /// Where the player arrives on the active floor: at the first stair
    /// up when coming down, at the first stair down when coming up, and at
    /// the spawn point of a floor that lacks that stair.
    pub open spec fn arrival(self, descending: bool) -> Point {
        let floor = self.dungeon.floors[self.active_floor.0 as int];
        let stairs = if descending {
            floor.substrate.stairs_up@
        } else {
            floor.substrate.stairs_down@
        };
        if stairs.len() > 0 {
            stairs[0]
        } else {
            floor.substrate.spawn
        }
    }

    /// Where the player arrives on the active floor.
    pub fn arrival_point(&self, descending: bool) -> (p: Point)
        requires
            self.active_floor.0 < self.dungeon.floors.len(),
        ensures
            p == self.arrival(descending),
    {
        match self.dungeon.active_floor(self.active_floor) {
            Some(floor) => {
                let stairs = if descending {
                    floor.stairs_up()
                } else {
                    floor.stairs_down()
                };
                if stairs.len() > 0 {
                    stairs[0]
                } else {
                    floor.spawn_point()
                }
            },
            None => Point::new(1, 1),
        }
    }

    /// Whether `post` is `pre` after the player has moved `delta` planes
    /// along the spectrum: the player stands on the same point of the new
    /// plane, in its colour, with no step pending and the view out of date.
    pub open spec fn cycled(pre: Self, delta: i32, post: Self) -> bool {
        &&& post.active_world == pre.active_world.cycled(delta as int)
        &&& post.behavior.focus_world == post.active_world
        &&& post.ecs == (EcsWorld { entities: post.ecs.entities, ..pre.ecs })
        &&& post.ecs.entities@ == pre.ecs.entities@.update(
            0,
            EntityRecord {
                intent: None,
                ..EcsWorld::relocated(
                    pre.ecs.hero(),
                    pre.ecs.hero_position().point,
                    pre.active_floor,
                    post.active_world,
                )
            },
        )
        &&& Self::wrote(
            RainbowRogueState {
                active_world: post.active_world,
                behavior: post.behavior,
                ecs: post.ecs,
                last_move_attempt: None,
                ..pre
            },
            post,
            seq![attuned_line(post.active_world.name(), pre.frame as int)],
        )
    }

    /// Moves the player `delta` planes along the spectrum, on the spot.
    /// Always takes a turn.
    pub fn cycle_world(&mut self, delta: i32) -> (acted: bool)
        requires
            old(self).wf(),
        ensures
            acted,
            final(self).wf(),
            Self::cycled(*old(self), delta, *final(self)),
            same_roster(old(self).ecs.entities@, final(self).ecs.entities@),
    {
        self.active_world = self.active_world.cycle(delta);
        self.behavior = BehaviorContext::new(self.active_world);
        let point = self.ecs.player_point();
        self.ecs.set_player_position(point, self.active_floor, self.active_world);
        self.ecs.clear_player_intent();
        self.last_move_attempt = None;
        let ghost quiet = *self;
        self.push_log_entry(attuned(self.active_world.as_str(), self.frame));
        proof {
            assert(self.ecs.entities@ =~= old(self).ecs.entities@.update(
                0,
                EntityRecord {
                    intent: None,
                    ..EcsWorld::relocated(
                        old(self).ecs.hero(),
                        old(self).ecs.hero_position().point,
                        old(self).active_floor,
                        self.active_world,
                    )
                },
            ));
            assert(quiet == (RainbowRogueState {
                active_world: self.active_world,
                behavior: self.behavior,
                ecs: self.ecs,
                last_move_attempt: None,
                ..*old(self)
            }));
        }
        true
    }
    /// Whether `post` is `pre` after the player has tried to step by
    /// (`dx`, `dy`). An empty step does nothing and takes no turn. A step
    /// onto somebody the player can strike is a blow: the step itself is
    /// queued only if the blow clears the way. Any other step is queued for
    /// the next pass.
    pub open spec fn step_tried(pre: Self, dx: i32, dy: i32, post: Self, acted: bool) -> bool {
        let current = pre.ecs.hero_position().point;
        let delta = Point { x: dx, y: dy };
        let queued = EntityRecord { intent: Some(IntentStep { delta }), ..pre.ecs.hero() };
        if dx == 0 && dy == 0 {
            !acted && post == pre
        } else {
            &&& acted
            &&& post.ecs == (EcsWorld { entities: post.ecs.entities, ..pre.ecs })
            &&& match current.offset(delta) {
                Some(target) => match pre.ecs.blow_at(target, pre.active_floor, pre.active_world) {
                    Some(blow) => {
                        &&& post.ecs.entities@ == if pre.ecs.blow_kills(blow) {
                            pre.ecs.after_blow(blow).update(0, queued)
                        } else {
                            pre.ecs.after_blow(blow)
                        }
                        &&& Self::wrote(
                            RainbowRogueState {
                                ecs: post.ecs,
                                last_move_attempt: if pre.ecs.blow_kills(blow) {
                                    Some((current, target))
                                } else {
                                    None
                                },
                                ..pre
                            },
                            post,
                            pre.ecs.blow_lines(blow),
                        )
                    },
                    None => {
                        &&& post.ecs.entities@ == pre.ecs.entities@.update(0, queued)
                        &&& post == (RainbowRogueState {
                            ecs: post.ecs,
                            last_move_attempt: Some((current, target)),
                            ..pre
                        })
                    },
                },
                None => {
                    &&& post.ecs.entities@ == pre.ecs.entities@.update(0, queued)
                    &&& post == (RainbowRogueState { ecs: post.ecs, last_move_attempt: None, ..pre })
                },
            }
        }
    }

    /// The player tries to step by (`dx`, `dy`), striking whoever stands in
    /// the way. Returns whether this takes a turn.
    pub fn try_step(&mut self, dx: i32, dy: i32) -> (acted: bool)
        requires
            old(self).wf(),
        ensures
            final(self).wf(),
            Self::step_tried(*old(self), dx, dy, *final(self), acted),
            descends(
                old(self).ecs.entities@,
                old(self).ecs.next_entity,
                final(self).ecs.entities@,
            ),
            final(self).ecs.next_entity == old(self).ecs.next_entity,
    {
        proof {
            lemma_same_roster_descends(
                old(self).ecs.entities@,
                old(self).ecs.next_entity,
                self.ecs.entities@,
            );
        }
        if dx == 0 && dy == 0 {
            return false;
        }
        let current = self.ecs.player_point();
        let delta = Point::new(dx, dy);
        let target = match current.checked_offset(delta) {
            Some(target) => target,
            None => {
                self.ecs.queue_player_step(delta);
                self.last_move_attempt = None;
                proof {
                    assert(same_roster(old(self).ecs.entities@, self.ecs.entities@));
                    lemma_same_roster_descends(
                        old(self).ecs.entities@,
                        old(self).ecs.next_entity,
                        self.ecs.entities@,
                    );
                }
                return true;
            },
        };
        match self.ecs.player_attack(target, self.active_floor, self.active_world) {
            Some(report) => {
                proof {
                    lemma_stays_housed(
                        old(self).ecs.entities@,
                        None,
                        self.ecs.entities@,
                        self.dungeon.floors.len() as int,
                    );
                }
                self.tell_blow(report, current, target, delta);
            },
            None => {
                self.ecs.queue_player_step(delta);
                self.last_move_attempt = Some((current, target));
                proof {
                    assert(same_roster(old(self).ecs.entities@, self.ecs.entities@));
                    lemma_same_roster_descends(
                        old(self).ecs.entities@,
                        old(self).ecs.next_entity,
                        self.ecs.entities@,
                    );
                }
            },
        }
        true
    }

    /// Tells of a blow of the player and, if it has cleared the way, queues
    /// the step onto the target's point.
    fn tell_blow(&mut self, report: AttackReport, current: Point, target: Point, delta: Point)
        requires
            old(self).wf(),
        ensures
            final(self).wf(),
            final(self).ecs == (EcsWorld { entities: final(self).ecs.entities, ..old(self).ecs }),
            same_roster(old(self).ecs.entities@, final(self).ecs.entities@),
            same_planes(old(self).ecs.entities@, final(self).ecs.entities@),
            final(self).ecs.entities@ == if report.kill is Some {
                old(self).ecs.entities@.update(
                    0,
                    EntityRecord { intent: Some(IntentStep { delta }), ..old(self).ecs.hero() },
                )
            } else {
                old(self).ecs.entities@
            },
            Self::wrote(
                RainbowRogueState {
                    ecs: final(self).ecs,
                    last_move_attempt: if report.kill is Some {
                        Some((current, target))
                    } else {
                        None
                    },
                    ..*old(self)
                },
                *final(self),
                match report.kill {
                    Some(kill) => seq![report.hit@, kill@],
                    None => seq![report.hit@],
                },
            ),
    {
        self.push_log_entry(report.hit);
        match report.kill {
            Some(kill) => {
                self.push_log_entry(kill);
                self.ecs.queue_player_step(delta);
                self.last_move_attempt = Some((current, target));
                proof {
                    let lines = seq![report.hit@, kill@];
                    assert(lines.drop_last() =~= seq![report.hit@]);
                    lemma_logged_one(old(self).log(), report.hit@);
                    assert(self.history() =~= old(self).history() + lines);
                }
            },
            None => {
                self.last_move_attempt = None;
            },
        }
    }

    /// Whether `post` is `pre` after the player has reached for slot
    /// `slot_index`. An empty slot says so and takes no turn. Otherwise the
    /// consumable is used, its lines are written, any pending report on a
    /// step is dropped, and the player's view is taken over.
    pub open spec fn slot_activated(pre: Self, slot_index: usize, post: Self, acted: bool) -> bool {
        &&& acted == pre.ecs.usable_slot(slot_index)
        &&& if acted {
            exists|mid: Self, lines: Seq<Seq<char>>|
                {
                    &&& EcsWorld::consumed(
                        pre.ecs,
                        slot_index,
                        pre.dungeon,
                        pre.active_floor,
                        pre.active_world,
                        mid.ecs,
                        Some(lines),
                    )
                    &&& #[trigger] Self::wrote(
                        RainbowRogueState { ecs: mid.ecs, last_move_attempt: None, ..pre },
                        mid,
                        lines,
                    )
                    &&& Self::sighted(mid, post)
                }
        } else {
            Self::wrote(pre, post, seq![empty_slot_line(slot_index + 1)])
        }
    }

    /// The player reaches for the consumable in slot `slot_index`.
    /// Returns whether this takes a turn.
    pub fn activate_consumable(&mut self, slot_index: usize) -> (acted: bool)
        requires
            old(self).wf(),
        ensures
            final(self).wf(),
            Self::slot_activated(*old(self), slot_index, *final(self), acted),
            descends(
                old(self).ecs.entities@,
                old(self).ecs.next_entity,
                final(self).ecs.entities@,
            ),
            final(self).ecs.next_entity == old(self).ecs.next_entity,
    {
        match self.ecs.use_consumable(
            slot_index,
            &self.dungeon,
            self.active_floor,
            self.active_world,
        ) {
            Some(messages) => {
                let ghost lines = texts(messages@);
                let ghost start = *self;
                let mut i: usize = 0;
                proof {
                    assert(lines.take(0) =~= Seq::<Seq<char>>::empty());
                    assert(self.history() =~= start.history() + lines.take(0));
                }
                while i < messages.len()
                    invariant
                        i <= messages.len(),
                        lines == texts(messages@),
                        Self::wrote(start, *self, lines.take(i as int)),
                    decreases messages.len() - i,
                {
                    self.push_log_entry(messages[i].clone());
                    proof {
                        let next = lines.take(i + 1);
                        assert(next.drop_last() =~= lines.take(i as int));
                        assert(next.last() == messages[i as int]@);
                        assert(self.history() =~= start.history() + next);
                    }
                    i += 1;
                }
                assert(lines.take(messages.len() as int) =~= lines);
                self.last_move_attempt = None;
                let ghost mid = *self;
                proof {
                    lemma_stays_housed(
                        old(self).ecs.entities@,
                        Some(self.active_floor),
                        self.ecs.entities@,
                        self.dungeon.floors.len() as int,
                    );
                }
                self.update_visibility();
                proof {
                    assert(Self::wrote(
                        RainbowRogueState {
                            ecs: mid.ecs,
                            last_move_attempt: None,
                            ..*old(self)
                        },
                        mid,
                        lines,
                    ));
                }
                true
            },
            None => {
                self.push_log_entry(empty_slot(slot_index as u128 + 1));
                false
            },
        }
    }
}

} // verus!
