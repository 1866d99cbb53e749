//! The state of a run and what the player's commands do to it.

use vstd::prelude::*;
use std::collections::HashSet;
use crate::ai::BehaviorContext;
use crate::ecs::resources::texts;
use crate::ecs::store::{housed, leader_on};
use crate::ecs::world::EcsWorld;
use crate::game::journal::{lemma_logged_one, logged, logged_all, write_entry};
use crate::game::scheduler::RunState;
use crate::geometry::Point;
use crate::map::dungeon::Dungeon;
use crate::map::world::{FloorId, World};
use crate::messages::{
    blocked, blocked_line, confirm_reset, confirm_reset_line, death, death_line, stats_reset,
    stats_reset_line, stepped, stepped_line,
};

verus! {

/// For how many frames a request to wipe the run stats waits to be confirmed.
pub const RESET_CONFIRM_WINDOW_FRAMES: u64 = 300;

/// What is remembered from run to run.
#[derive(Clone, Copy, Debug, PartialEq, Eq, Structural)]
pub struct RunStats {
    pub run_number: u32,
    pub best_depth: u32,
}

impl Default for RunStats {
    fn default() -> (s: Self)
        ensures
            s == (RunStats { run_number: 1, best_depth: 0 }),
    {
        Self { run_number: 1, best_depth: 0 }
    }
}

/// What the player can ask for.
#[derive(Clone, Copy, Debug, PartialEq, Eq, Structural)]
pub enum Command {
    /// Step by (`dx`, `dy`), or strike whoever stands there.
    Step { dx: i32, dy: i32 },
    /// Move `delta` planes along the spectrum.
    CycleWorld { delta: i32 },
    /// Take the stairs: down for a positive `delta`, up for a negative one.
    ShiftFloor { delta: i32 },
    /// Use the consumable in slot `slot`, counted from 0.
    UseSlot { slot: usize },
    /// Wipe the run stats, or after death start a new run.
    Reset,
    Quit,
    /// Let a turn pass.
    Wait,
    /// Force the turn to be resolved.
    ForceTurn,
    /// Show the state; the simulation ignores it.
    DumpState,
}

/// The larger of two depths.
pub open spec fn deeper(a: u32, b: u32) -> u32 {
    if a >= b {
        a
    } else {
        b
    }
}

/// How many frames lie between `earlier` and `later`; none when `earlier`
/// is not earlier.
pub open spec fn frames_since(later: u64, earlier: u64) -> int {
    if later >= earlier {
        later - earlier
    } else {
        0
    }
}

/// The state of a run.
pub struct RainbowRogueState {
    pub dungeon: Dungeon,
    pub ecs: EcsWorld,
    pub behavior: BehaviorContext,
    pub active_world: World,
    pub active_floor: FloorId,
    pub frame: u64,
    /// The newest messages, newest first.
    pub message_log: Vec<String>,
    /// Where the player's pending step starts and where it would end.
    pub last_move_attempt: Option<(Point, Point)>,
    /// What the player sees, each point once.
    pub visible_tiles: Vec<Point>,
    pub hp_alerted: bool,
    /// The floors that have been given their monsters.
    pub seeded_floors: HashSet<u32>,
    pub run_stats: RunStats,
    pub run_max_floor: u32,
    pub is_dead: bool,
    /// The frame on which a wipe of the run stats was asked for, while the
    /// request waits to be confirmed.
    pub reset_prompt_frame: Option<u64>,
    pub needs_prime_tick: bool,
    /// Every message of the run, oldest first.
    pub play_history: Vec<String>,
    pub last_player_point: Option<Point>,
    pub run_state: RunState,
    /// Whether the player has asked to leave.
    pub quit_requested: bool,
    /// Whether the run stats have changed since this flag was last cleared.
    pub stats_changed: bool,
}

impl RainbowRogueState {
    /// The dungeon and the simulation are well formed, the active floor
    /// has been generated, the player stands on the active plane of it, and
    /// everybody else stands on a floor that has been generated.
    pub open spec fn wf(self) -> bool {
        &&& self.dungeon.wf()
        &&& self.ecs.wf()
        &&& self.active_floor.0 < self.dungeon.floors.len()
        &&& leader_on(self.ecs.entities@, self.active_floor, self.active_world)
        &&& housed(self.ecs.entities@, self.dungeon.floors.len() as int)
    }

    /// The message log, newest line first.
    pub open spec fn log(self) -> Seq<Seq<char>> {
        texts(self.message_log@)
    }

    /// Every message of the run, oldest first.
    pub open spec fn history(self) -> Seq<Seq<char>> {
        texts(self.play_history@)
    }

    /// Whether `post` differs from `pre` at most by the lines `written`,
    /// written to the log in their order.
    pub open spec fn wrote(pre: Self, post: Self, written: Seq<Seq<char>>) -> bool {
        &&& post.log() == logged_all(pre.log(), written)
        &&& post.history() == pre.history() + written
        &&& post == (RainbowRogueState {
            message_log: post.message_log,
            play_history: post.play_history,
            ..pre
        })
    }

    /// Writes `entry` to the message log and to the history of the run.
    pub fn push_log_entry(&mut self, entry: String)
        ensures
            Self::wrote(*old(self), *final(self), seq![entry@]),
            final(self).log() == logged(old(self).log(), entry@),
            final(self).history() == old(self).history().push(entry@),
    {
        self.play_history.push(entry.clone());
        write_entry(&mut self.message_log, entry);
        proof {
            assert(self.history() =~= old(self).history().push(entry@));
            assert(self.history() =~= old(self).history() + seq![entry@]);
            lemma_logged_one(old(self).log(), entry@);
        }
    }

    /// Forgets a request to wipe the run stats that has waited too long.
    pub fn expire_reset_prompt(&mut self)
        ensures
            *final(self) == (RainbowRogueState {
                reset_prompt_frame: match old(self).reset_prompt_frame {
                    Some(asked) => if frames_since(old(self).frame, asked)
                        > RESET_CONFIRM_WINDOW_FRAMES {
                        None
                    } else {
                        Some(asked)
                    },
                    None => None,
                },
                ..*old(self)
            }),
    {
        match self.reset_prompt_frame {
            Some(asked) => {
                if self.frame >= asked && self.frame - asked > RESET_CONFIRM_WINDOW_FRAMES {
                    self.reset_prompt_frame = None;
                }
            },
            None => {},
        }
    }

    /// Whether a request to wipe the run stats is waiting and still fresh.
    pub open spec fn reset_confirmed(self) -> bool {
        match self.reset_prompt_frame {
            Some(asked) => frames_since(self.frame, asked) <= RESET_CONFIRM_WINDOW_FRAMES,
            None => false,
        }
    }

    /// Whether `post` is `pre` after a request to wipe the run stats: the
    /// first request asks for confirmation, a second one within the window
    /// wipes them. The dead cannot ask.
    pub open spec fn reset_requested(pre: Self, post: Self) -> bool {
        if pre.is_dead {
            post == pre
        } else if pre.reset_confirmed() {
            Self::wrote(
                RainbowRogueState {
                    reset_prompt_frame: None,
                    run_stats: RunStats { run_number: 1, best_depth: 0 },
                    run_max_floor: pre.active_floor.0,
                    stats_changed: true,
                    ..pre
                },
                post,
                seq![stats_reset_line()],
            )
        } else {
            Self::wrote(
                RainbowRogueState { reset_prompt_frame: Some(pre.frame), ..pre },
                post,
                seq![confirm_reset_line()],
            )
        }
    }

    /// Handles a request to wipe the run stats.
    pub fn handle_reset_request(&mut self)
        ensures
            Self::reset_requested(*old(self), *final(self)),
    {
        if self.is_dead {
            return ;
        }
        let confirmed = match self.reset_prompt_frame {
            Some(asked) => self.frame < asked || self.frame - asked <= RESET_CONFIRM_WINDOW_FRAMES,
            None => false,
        };
        if confirmed {
            self.reset_prompt_frame = None;
            self.clear_run_stats();
        } else {
            self.reset_prompt_frame = Some(self.frame);
            self.push_log_entry(confirm_reset());
        }
    }

    /// Wipes the run stats: the run counter goes back to 1, the best depth
    /// to 0, and the deepest floor of this run to the floor the player is on.
    pub fn clear_run_stats(&mut self)
        ensures
            Self::wrote(
                RainbowRogueState {
                    run_stats: RunStats { run_number: 1, best_depth: 0 },
                    run_max_floor: old(self).active_floor.0,
                    stats_changed: true,
                    ..*old(self)
                },
                *final(self),
                seq![stats_reset_line()],
            ),
    {
        self.run_stats = RunStats::default();
        self.run_max_floor = self.active_floor.0;
        self.stats_changed = true;
        self.push_log_entry(stats_reset());
    }

    /// The state once it has been noted that the player has reached `floor`.
    pub open spec fn depth_recorded(self, floor: FloorId) -> Self {
        RainbowRogueState {
            run_max_floor: deeper(self.run_max_floor, floor.0),
            run_stats: RunStats {
                best_depth: deeper(self.run_stats.best_depth, deeper(self.run_max_floor, floor.0)),
                ..self.run_stats
            },
            stats_changed: true,
            ..self
        }
    }

    /// Notes that the player has reached `floor`.
    pub fn record_depth(&mut self, floor: FloorId)
        ensures
            *final(self) == old(self).depth_recorded(floor),
    {
        if floor.0 > self.run_max_floor {
            self.run_max_floor = floor.0;
        }
        if self.run_max_floor > self.run_stats.best_depth {
            self.run_stats.best_depth = self.run_max_floor;
        }
        self.stats_changed = true;
    }

    /// Marks the player as dead. The player's entity stays in the store.
    pub fn on_player_death(&mut self)
        requires
            old(self).wf(),
        ensures
            final(self).wf(),
            final(self).is_dead,
            final(self).ecs.entities.len() == old(self).ecs.entities.len(),
            Self::wrote(
                RainbowRogueState {
                    is_dead: true,
                    ecs: final(self).ecs,
                    last_move_attempt: None,
                    run_stats: RunStats {
                        best_depth: deeper(old(self).run_stats.best_depth, old(self).run_max_floor),
                        ..old(self).run_stats
                    },
                    stats_changed: true,
                    ..*old(self)
                },
                *final(self),
                seq![death_line()],
            ),
            final(self).ecs == (EcsWorld { entities: final(self).ecs.entities, ..old(self).ecs }),
            final(self).ecs.entities@ == old(self).ecs.entities@.update(
                0,
                crate::ecs::store::EntityRecord { intent: None, ..old(self).ecs.hero() },
            ),
    {
        self.is_dead = true;
        self.ecs.clear_player_intent();
        self.last_move_attempt = None;
        if self.run_max_floor > self.run_stats.best_depth {
            self.run_stats.best_depth = self.run_max_floor;
        }
        self.stats_changed = true;
        self.push_log_entry(death());
    }

    /// Whether `post` is `pre` after the combat log has been moved to the
    /// message log.
    pub open spec fn flushed(pre: Self, post: Self) -> bool {
        &&& Self::wrote(
            RainbowRogueState { ecs: post.ecs, ..pre },
            post,
            pre.ecs.combat_log.lines(),
        )
        &&& post.ecs.combat_log.lines() == Seq::<Seq<char>>::empty()
        &&& post.ecs == (EcsWorld { combat_log: post.ecs.combat_log, ..pre.ecs })
    }

    /// Moves what the fights have written from the combat log to the
    /// message log.
    pub fn flush_combat_log(&mut self)
        ensures
            Self::flushed(*old(self), *final(self)),
    {
        let entries = self.ecs.drain_combat_log();
        let ghost start = *self;
        let ghost lines = texts(entries@);
        let mut i: usize = 0;
        assert(lines.take(0) =~= Seq::<Seq<char>>::empty());
        assert(self.history() =~= start.history() + lines.take(0));
        while i < entries.len()
            invariant
                i <= entries.len(),
                lines == texts(entries@),
                Self::wrote(start, *self, lines.take(i as int)),
            decreases entries.len() - i,
        {
            let ghost before = *self;
            self.push_log_entry(entries[i].clone());
            proof {
                let next = lines.take(i + 1);
                assert(next.drop_last() =~= lines.take(i as int));
                assert(next.last() == entries[i as int]@);
                assert(self.history() =~= start.history() + next);
            }
            i += 1;
        }
        assert(lines.take(entries.len() as int) =~= lines);
    }

    /// What there is to say about the step that the player asked for:
    /// that it was taken, when the player stands on its target; that it was
    /// blocked, when the player has not moved from `previous_point`.
    pub open spec fn move_report(self, previous_point: Point) -> Seq<Seq<char>> {
        match self.last_move_attempt {
            Some((origin, target)) => if self.ecs.hero_position().point == target {
                seq![stepped_line(target.x as int, target.y as int, self.active_world.name())]
            } else if origin == previous_point {
                seq![blocked_line(target.x as int, target.y as int)]
            } else {
                Seq::empty()
            },
            None => Seq::empty(),
        }
    }

    /// Whether `post` is `pre` after the report on the player's step.
    pub open spec fn move_resolved(pre: Self, previous_point: Point, post: Self) -> bool {
        Self::wrote(
            RainbowRogueState { last_move_attempt: None, ..pre },
            post,
            pre.move_report(previous_point),
        )
    }

    /// Says how the step that the player asked for has ended: taken, or
    /// blocked. `previous_point` is where the player stood before the pass.
    pub fn resolve_move_attempt(&mut self, previous_point: Point)
        requires
            old(self).wf(),
        ensures
            Self::move_resolved(*old(self), previous_point, *final(self)),
    {
        let attempt = self.last_move_attempt;
        self.last_move_attempt = None;
        proof {
            assert(self.history() =~= self.history() + Seq::<Seq<char>>::empty());
        }
        match attempt {
            Some((origin, target)) => {
                let current = self.ecs.player_point();
                if current == target {
                    self.push_log_entry(stepped(current.x, current.y, self.active_world.as_str()));
                } else if origin == previous_point {
                    self.push_log_entry(blocked(target.x, target.y));
                }
            },
            None => {},
        }
    }
}

} // verus!
