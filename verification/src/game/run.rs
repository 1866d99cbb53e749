//! The beginning of a run, the player's commands, and the tick that
//! drives the turn scheduler.

use vstd::prelude::*;
use std::collections::HashSet;
use crate::ai::BehaviorContext;
use crate::data::rules::{builtin_rules, rule_text};
use crate::dice::{generator_state, seeded_state};
use crate::ecs::resources::texts;
use crate::ecs::store::{monster_pending, Entity};
use crate::ecs::systems::FieldOfView;
use crate::ecs::world::{fresh_player, EcsWorld, WORLD_SEED};
use crate::game::scheduler::RunState;
use crate::game::seeding::{newcomer, placed, stands_alone, MAX_MONSTERS, Placement, Seeding};
use crate::game::state::{deeper, Command, RainbowRogueState, RunStats};
use crate::geometry::Point;
use crate::map::dungeon::Dungeon;
use crate::map::substrate::procedural_plan;
use crate::map::world::{DEFAULT_MAP_HEIGHT, DEFAULT_MAP_WIDTH, FloorId, World};
use crate::messages::{focus, focus_line, run_anchored, run_anchored_line};

verus! {

/// The lines with which the message log of a new run opens: the rule of
/// each plane, in spectrum order.
pub open spec fn opening_lines() -> Seq<Seq<char>> {
    Seq::new(7, |i: int| focus_line(World::at(i).name(), rule_text(World::at(i))@))
}

/// What one tick did.
#[derive(Clone, Copy, Debug, PartialEq, Eq, Structural)]
pub struct TickReport {
    /// Whether the input was taken up. Input that arrives while the
    /// scheduler is not waiting for it is left for the next tick.
    pub consumed_input: bool,
    /// Whether the player's turn was resolved.
    pub player_acted: bool,
    /// Whether the monsters' turn was resolved.
    pub monsters_acted: bool,
    /// How many passes of the simulation ran.
    pub passes: u8,
}

impl RainbowRogueState {
    /// What the monsters of the surface floor of a new run depend on: the
    /// player stands alone at the spawn point.
    pub open spec fn first_seeding(self) -> Seeding {
        Seeding {
            entities: self.ecs.entities@.take(1),
            dungeon: self.dungeon,
            floor: FloorId(0),
            active_floor: FloorId(0),
            active_world: World::Red,
            hero_point: self.dungeon.floors[0].substrate.spawn,
        }
    }

    /// The monsters that the surface floor of a new run is given.
    pub open spec fn first_monsters(self) -> Seq<Placement> {
        self.first_seeding().plan(1)
    }

    /// Whether `s` is a run as it begins, `meta` being what earlier runs
    /// have left: the player stands at the spawn point of the surface
    /// floor's red plane, the floor has its monsters, and the log shows the
    /// rules of the planes.
    pub open spec fn started(meta: RunStats, s: Self) -> bool {
        let spawn = s.dungeon.floors[0].substrate.spawn;
        &&& s.active_world == World::Red
        &&& s.active_floor == FloorId(0)
        &&& s.behavior.focus_world == World::Red
        &&& s.frame == 0
        &&& s.log() == opening_lines()
        &&& s.history() == Seq::<Seq<char>>::empty()
        &&& s.last_move_attempt is None
        &&& s.visible_tiles@ == Seq::<Point>::empty()
        &&& !s.hp_alerted
        &&& s.seeded_floors@ == set![0u32]
        &&& s.run_stats == meta
        &&& s.run_max_floor == 0
        &&& !s.is_dead
        &&& s.reset_prompt_frame is None
        &&& s.needs_prime_tick
        &&& s.last_player_point == Some(spawn)
        &&& s.run_state == RunState::AwaitingInput
        &&& !s.quit_requested
        &&& s.stats_changed
        &&& s.dungeon.floors.len() == 1
        &&& s.dungeon.floors[0].pristine()
        &&& s.dungeon.floors[0].substrate@ == procedural_plan(
            DEFAULT_MAP_WIDTH as int,
            DEFAULT_MAP_HEIGHT as int,
            1,
        )
        &&& s.ecs.turn == 0
        &&& s.ecs.combat_log.lines() == Seq::<Seq<char>>::empty()
        &&& generator_state(s.ecs.rng) == seeded_state(WORLD_SEED)
        &&& 1 <= s.ecs.entities.len() <= 1 + 7 * MAX_MONSTERS
        &&& s.ecs.player == (Entity { id: 0 })
        &&& fresh_player(s.ecs.entities[0], s.ecs.player, spawn, FloorId(0), World::Red)
        &&& forall|w: nat| w < 7 ==> #[trigger] s.first_seeding().plane_filled(w, 1)
        &&& s.ecs.entities.len() == 1 + s.first_monsters().len()
        &&& s.ecs.next_entity == 1 + s.first_monsters().len()
        &&& forall|i: int|
            0 <= i < s.first_monsters().len() ==> placed(
                #[trigger] s.ecs.entities[1 + i],
                Entity { id: (1 + i) as u64 },
                s.first_monsters()[i],
                FloorId(0),
            )
        &&& forall|i: int|
            1 <= i < s.ecs.entities.len() ==> newcomer(
                #[trigger] s.ecs.entities[i],
                FloorId(0),
                s.dungeon,
            ) && stands_alone(s.ecs.entities@, i)
    }

    /// The opening lines of the message log.
    fn opening_log() -> (log: Vec<String>)
        ensures
            texts(log@) == opening_lines(),
    {
        let rules = builtin_rules();
        let mut log: Vec<String> = Vec::new();
        let mut i: usize = 0;
        while i < rules.len()
            invariant
                i <= rules.len(),
                rules.len() == 7,
                forall|k: int|
                    0 <= k < 7 ==> (#[trigger] rules[k]).world == World::at(k) && rules[k].notes
                        == rule_text(World::at(k)),
                log.len() == i,
                forall|k: int|
                    0 <= k < i ==> (#[trigger] log[k])@ == focus_line(
                        World::at(k).name(),
                        rule_text(World::at(k))@,
                    ),
            decreases rules.len() - i,
        {
            log.push(focus(rules[i].world.as_str(), rules[i].notes));
            i += 1;
        }
        assert(texts(log@) =~= opening_lines());
        log
    }

    /// Begins a run. `meta` is what earlier runs have left.
    pub fn new(meta: RunStats) -> (s: Self)
        ensures
            s.wf(),
            Self::started(meta, s),
    {
        let dungeon = Dungeon::scaffolding_demo();
        let active_world = World::Red;
        let active_floor = FloorId(0);
        let player_pos = dungeon.spawn_point(active_floor);
        let ecs = EcsWorld::new(player_pos, active_floor, active_world);
        let mut state = Self {
            dungeon,
            ecs,
            behavior: BehaviorContext::new(active_world),
            active_world,
            active_floor,
            frame: 0,
            message_log: Self::opening_log(),
            last_move_attempt: None,
            visible_tiles: Vec::new(),
            hp_alerted: false,
            seeded_floors: HashSet::new(),
            run_stats: meta,
            run_max_floor: 0,
            is_dead: false,
            reset_prompt_frame: None,
            needs_prime_tick: true,
            play_history: Vec::new(),
            last_player_point: Some(player_pos),
            run_state: RunState::AwaitingInput,
            quit_requested: false,
            stats_changed: false,
        };
        let ghost bare = state;
        assert(state.history() =~= Seq::<Seq<char>>::empty());
        assert(bare.ecs.entities@.take(1) =~= bare.ecs.entities@);
        state.seed_floor_monsters(active_floor);
        let ghost seeded = state;
        assert(seeded.seeded_floors@ =~= set![0u32]);
        state.record_depth(active_floor);
        let ghost noted = state;
        state.update_visibility();
        proof {
            assert(noted.in_view() =~= Seq::<Point>::empty());
            assert(state.dungeon == bare.dungeon);
            assert(state.ecs.entities@.take(1) =~= bare.ecs.entities@);
            assert(state.first_seeding() == bare.seeding(FloorId(0)));
            assert(state.first_monsters() == bare.seeding(FloorId(0)).plan(1));
            assert(state.ecs == seeded.ecs);
            assert(Self::monsters_seeded(bare, FloorId(0), seeded));
            assert(bare.ecs.entities.len() == 1 && bare.ecs.next_entity == 1);
            assert forall|i: int| 0 <= i < state.first_monsters().len() implies placed(
                #[trigger] state.ecs.entities[1 + i],
                Entity { id: (1 + i) as u64 },
                state.first_monsters()[i],
                FloorId(0),
            ) by {
                assert(placed(
                    seeded.ecs.entities[bare.ecs.entities.len() + i],
                    Entity { id: (bare.ecs.next_entity + i) as u64 },
                    bare.seeding(FloorId(0)).plan(bare.ecs.next_entity)[i],
                    FloorId(0),
                ));
            }
            assert(state.dungeon.floors[0].pristine()) by {
                let before = noted.dungeon.floors[0];
                let after = state.dungeon.floors[0];
                assert(before == bare.dungeon.floors[0]);
                assert(before.pristine());
                assert(after.substrate == before.substrate);
                assert forall|w: World, p: Point| after.plane(w).contains(p) implies #[trigger] after.plane(
                    w,
                ).tile(p) == Some(after.substrate@.painted(w, p)) by {
                    if w == World::Red {
                        assert(!Seq::<Point>::empty().contains(p));
                        assert(after.plane(w).tile(p) == before.plane(w).tile(p));
                        assert(after.plane(w).width == before.plane(w).width);
                        assert(after.plane(w).height == before.plane(w).height);
                    } else {
                        assert(after.plane(w) == before.plane(w));
                    }
                    assert(before.plane(w).contains(p));
                    assert(before.plane(w).tile(p) == Some(before.substrate@.painted(w, p)));
                    assert(crate::map::dungeon::paints(
                        after.layers[w.index()],
                        after.substrate@,
                        World::at(w.index()),
                    ));
                    assert(crate::map::dungeon::paints(
                        before.layers[w.index()],
                        before.substrate@,
                        World::at(w.index()),
                    ));
                }
            }
            assert forall|i: int| 1 <= i < state.ecs.entities.len() implies newcomer(
                #[trigger] state.ecs.entities[i],
                FloorId(0),
                state.dungeon,
            ) && stands_alone(state.ecs.entities@, i) by {
                assert(newcomer(seeded.ecs.entities[i], FloorId(0), bare.dungeon));
                let rec = state.ecs.entities[i];
                let pos = rec.position->0;
                assert(state.dungeon.walkable(FloorId(0), pos.world, pos.point)
                    == bare.dungeon.walkable(FloorId(0), pos.world, pos.point)) by {
                    if pos.world == World::Red {
                        assert(state.dungeon.floors[0].plane(pos.world).tile(pos.point)
                            == bare.dungeon.floors[0].plane(pos.world).tile(pos.point));
                    } else {
                        assert(state.dungeon.floors[0].plane(pos.world)
                            == bare.dungeon.floors[0].plane(pos.world));
                    }
                }
            }
        }
        state
    }
}

impl RainbowRogueState {
    /// Whether `post` is the run that follows the run `pre`: a run as it
    /// begins, with the stats that `pre` leaves, and a line that says so.
    pub open spec fn restarted(pre: Self, post: Self) -> bool {
        exists|fresh: Self| #[trigger]
            Self::started(pre.run_stats.next_run(pre.run_max_floor), fresh) && fresh.wf()
                && Self::wrote(
                fresh,
                post,
                seq![
                    run_anchored_line(
                        pre.run_stats.next_run(pre.run_max_floor).run_number as int,
                        pre.run_stats.next_run(pre.run_max_floor).best_depth as int,
                    ),
                ],
            )
    }

    /// Ends this run and begins the next.
    pub fn reset_run(&mut self)
        ensures
            final(self).wf(),
            Self::restarted(*old(self), *final(self)),
            !final(self).is_dead,
            final(self).run_state == RunState::AwaitingInput,
    {
        let mut next_stats = self.run_stats;
        if self.run_max_floor > next_stats.best_depth {
            next_stats.best_depth = self.run_max_floor;
        }
        if next_stats.run_number < u32::MAX {
            next_stats.run_number = next_stats.run_number + 1;
        }
        *self = Self::new(next_stats);
        let ghost fresh = *self;
        self.push_log_entry(run_anchored(self.run_stats.run_number, self.run_stats.best_depth));
        proof {
            assert(Self::started(old(self).run_stats.next_run(old(self).run_max_floor), fresh));
        }
    }

    /// Whether `post` is `pre` after the player's input. Without input
    /// nothing happens. The dead can only start a new run or leave. The
    /// living step, change plane, take the stairs, use a consumable, ask
    /// for a wipe of the run stats, leave, wait, or force the turn.
    /// `acted` says whether the input takes a turn.
    pub open spec fn handled(pre: Self, command: Option<Command>, post: Self, acted: bool) -> bool {
        match command {
            None => !acted && post == pre,
            Some(cmd) => if pre.is_dead {
                &&& !acted
                &&& match cmd {
                    Command::Reset => Self::restarted(pre, post),
                    Command::Quit => post == (RainbowRogueState { quit_requested: true, ..pre }),
                    _ => post == pre,
                }
            } else {
                match cmd {
                    Command::Step { dx, dy } => Self::step_tried(pre, dx, dy, post, acted),
                    Command::CycleWorld { delta } => acted && Self::cycled(pre, delta, post),
                    Command::ShiftFloor { delta } => Self::floor_shifted(pre, delta, post, acted),
                    Command::UseSlot { slot } => Self::slot_activated(pre, slot, post, acted),
                    Command::Reset => !acted && Self::reset_requested(pre, post),
                    Command::Quit => !acted && post == (RainbowRogueState {
                        quit_requested: true,
                        ..pre
                    }),
                    Command::Wait => acted && post == pre,
                    Command::ForceTurn => acted && post == (RainbowRogueState {
                        run_state: RunState::PlayerTurn,
                        ..pre
                    }),
                    Command::DumpState => !acted && post == pre,
                }
            },
        }
    }

    /// Carries out the player's input, if there is any. Returns whether it
    /// takes a turn.
    pub fn handle_input(&mut self, command: Option<Command>) -> (acted: bool)
        requires
            old(self).wf(),
        ensures
            final(self).wf(),
            Self::handled(*old(self), command, *final(self), acted),
    {
        let cmd = match command {
            Some(cmd) => cmd,
            None => {
                return false;
            },
        };
        if self.is_dead {
            match cmd {
                Command::Reset => {
                    self.reset_run();
                },
                Command::Quit => {
                    self.quit_requested = true;
                },
                _ => {},
            }
            return false;
        }
        match cmd {
            Command::Step { dx, dy } => self.try_step(dx, dy),
            Command::CycleWorld { delta } => self.cycle_world(delta),
            Command::ShiftFloor { delta } => self.shift_floor(delta),
            Command::UseSlot { slot } => self.activate_consumable(slot),
            Command::Reset => {
                self.handle_reset_request();
                false
            },
            Command::Quit => {
                self.quit_requested = true;
                false
            },
            Command::Wait => true,
            Command::ForceTurn => {
                self.run_state = RunState::PlayerTurn;
                true
            },
            Command::DumpState => false,
        }
    }

    /// The state in which a request to wipe the run stats that has waited
    /// too long is forgotten.
    pub open spec fn prompt_expired(self) -> Self {
        RainbowRogueState {
            reset_prompt_frame: match self.reset_prompt_frame {
                Some(asked) => if crate::game::state::frames_since(self.frame, asked)
                    > crate::game::state::RESET_CONFIRM_WINDOW_FRAMES {
                    None
                } else {
                    Some(asked)
                },
                None => None,
            },
            ..self
        }
    }

    /// Whether the turn that begins in `begun`, with the player's turn to
    /// be resolved, leads to `post`: the player's turn is resolved into
    /// `resolved`; if a monster then holds a pending step the monsters'
    /// turn is resolved too; and input is awaited again.
    pub open spec fn turn_completed<S: FieldOfView>(
        begun: Self,
        sight: S,
        resolved: Self,
        post: Self,
        report: TickReport,
    ) -> bool {
        &&& Self::turned(
            RainbowRogueState { run_state: RunState::PlayerTurn, ..begun },
            true,
            sight,
            resolved,
        )
        &&& report.player_acted
        &&& report.monsters_acted == monster_pending(resolved.ecs.entities@)
        &&& if monster_pending(resolved.ecs.entities@) {
            &&& report.passes == 2
            &&& exists|reacted: Self| #[trigger]
                Self::turned(
                    RainbowRogueState { run_state: RunState::MonsterTurn, ..resolved },
                    false,
                    sight,
                    reacted,
                ) && post == (RainbowRogueState { run_state: RunState::AwaitingInput, ..reacted })
        } else {
            &&& report.passes == 1
            &&& post == (RainbowRogueState { run_state: RunState::AwaitingInput, ..resolved })
        }
    }

    /// Whether `post` and `report` are what one tick with the input
    /// `command` makes of `pre`. While input is awaited the input is taken
    /// up, and if it takes a turn the turn is played out. A turn already
    /// under way is played out and the input is left for the next tick.
    /// Either way input is awaited afterwards, unless the input took no turn.
    pub open spec fn ticked<S: FieldOfView>(
        pre: Self,
        command: Option<Command>,
        sight: S,
        post: Self,
        report: TickReport,
    ) -> bool {
        let e = pre.prompt_expired();
        match e.run_state {
            RunState::AwaitingInput => {
                &&& report.consumed_input
                &&& exists|h: Self, acted: bool| #[trigger]
                    Self::handled(e, command, h, acted) && if acted {
                        exists|r: Self| #[trigger] Self::turn_completed(h, sight, r, post, report)
                    } else {
                        &&& post == h
                        &&& !report.player_acted
                        &&& !report.monsters_acted
                        &&& report.passes == 0
                    }
            },
            RunState::PlayerTurn => {
                &&& !report.consumed_input
                &&& exists|r: Self| #[trigger] Self::turn_completed(e, sight, r, post, report)
            },
            RunState::MonsterTurn => {
                &&& !report.consumed_input
                &&& !report.player_acted
                &&& report.monsters_acted == monster_pending(e.ecs.entities@)
                &&& if monster_pending(e.ecs.entities@) {
                    &&& report.passes == 1
                    &&& exists|reacted: Self| #[trigger]
                        Self::turned(e, false, sight, reacted) && post == (RainbowRogueState {
                            run_state: RunState::AwaitingInput,
                            ..reacted
                        })
                } else {
                    &&& report.passes == 0
                    &&& post == (RainbowRogueState { run_state: RunState::AwaitingInput, ..e })
                }
            },
        }
    }

    /// Plays out the monsters' part of the turn and waits for input again.
    fn monsters_react<S: FieldOfView>(&mut self, sight: &S) -> (reacted: bool)
        requires
            old(self).wf(),
            old(self).run_state == RunState::MonsterTurn,
        ensures
            final(self).wf(),
            final(self).run_state == RunState::AwaitingInput,
            reacted == monster_pending(old(self).ecs.entities@),
            if reacted {
                exists|after: Self| #[trigger]
                    Self::turned(*old(self), false, *sight, after) && *final(self) == (RainbowRogueState {
                        run_state: RunState::AwaitingInput,
                        ..after
                    })
            } else {
                *final(self) == (RainbowRogueState {
                    run_state: RunState::AwaitingInput,
                    ..*old(self)
                })
            },
    {
        let pending = self.ecs.has_monster_intent();
        let transition = self.run_state.step(false, pending);
        if transition.pass {
            self.run_turn(false, sight);
            let ghost after = *self;
            self.run_state = transition.next;
            proof {
                assert(Self::turned(*old(self), false, *sight, after));
            }
        } else {
            self.run_state = transition.next;
        }
        pending
    }

    /// Plays out a turn from the player's part on.
    fn complete_turn<S: FieldOfView>(&mut self, sight: &S) -> (report: TickReport)
        requires
            old(self).wf(),
        ensures
            final(self).wf(),
            final(self).run_state == RunState::AwaitingInput,
            !report.consumed_input,
            1 <= report.passes <= 2,
            exists|r: Self| #[trigger] Self::turn_completed(*old(self), *sight, r, *final(self), report),
    {
        self.run_state = RunState::PlayerTurn;
        let transition = self.run_state.step(true, false);
        if transition.pass {
            self.run_turn(true, sight);
        }
        let ghost resolved = *self;
        self.run_state = transition.next;
        let reacted = self.monsters_react(sight);
        let report = TickReport {
            consumed_input: false,
            player_acted: true,
            monsters_acted: reacted,
            passes: if reacted {
                2
            } else {
                1
            },
        };
        proof {
            assert(Self::turn_completed(*old(self), *sight, resolved, *self, report));
        }
        report
    }

    /// One tick: takes up the player's input if the scheduler awaits it,
    /// and plays out the turn that it starts or that is under way.
    pub fn tick<S: FieldOfView>(&mut self, command: Option<Command>, sight: &S) -> (report:
        TickReport)
        requires
            old(self).wf(),
        ensures
            final(self).wf(),
            Self::ticked(*old(self), command, *sight, *final(self), report),
            report.passes <= 2,
            report.passes > 0 ==> final(self).run_state == RunState::AwaitingInput,
    {
        self.expire_reset_prompt();
        let ghost e = *self;
        match self.run_state {
            RunState::AwaitingInput => {
                let acted = self.handle_input(command);
                let ghost h = *self;
                let transition = RunState::AwaitingInput.step(acted, false);
                if !transition.done {
                    let played = self.complete_turn(sight);
                    let report = TickReport { consumed_input: true, ..played };
                    proof {
                        let r = choose|r: Self| #[trigger]
                            Self::turn_completed(h, *sight, r, *self, played);
                        assert(Self::turn_completed(h, *sight, r, *self, report));
                        assert(e == old(self).prompt_expired());
                        assert(Self::handled(e, command, h, acted) && (if acted {
                            exists|r: Self| #[trigger] Self::turn_completed(h, *sight, r, *self, report)
                        } else {
                            &&& *self == h
                            &&& !report.player_acted
                            &&& !report.monsters_acted
                            &&& report.passes == 0
                        }));
                    }
                    report
                } else {
                    let report = TickReport {
                        consumed_input: true,
                        player_acted: false,
                        monsters_acted: false,
                        passes: 0,
                    };
                    proof {
                        assert(e == old(self).prompt_expired());
                        assert(Self::handled(e, command, h, acted) && (if acted {
                            exists|r: Self| #[trigger] Self::turn_completed(h, *sight, r, *self, report)
                        } else {
                            &&& *self == h
                            &&& !report.player_acted
                            &&& !report.monsters_acted
                            &&& report.passes == 0
                        }));
                    }
                    report
                }
            },
            RunState::PlayerTurn => self.complete_turn(sight),
            RunState::MonsterTurn => {
                let reacted = self.monsters_react(sight);
                TickReport {
                    consumed_input: false,
                    player_acted: false,
                    monsters_acted: reacted,
                    passes: if reacted {
                        1
                    } else {
                        0
                    },
                }
            },
        }
    }
}

/// Where the log panel starts on a screen `screen_height` rows high: seven
/// rows above the bottom, but not above row 12, nor within two rows of the
/// bottom, nor above row 1; row 0 on a screen without rows.
pub open spec fn log_start(screen_height: int) -> int {
    if screen_height <= 0 {
        0
    } else {
        let wanted = if screen_height - 8 < 12 {
            12
        } else {
            screen_height - 8
        };
        let fitted = if wanted > screen_height - 2 {
            screen_height - 2
        } else {
            wanted
        };
        if fitted < 1 {
            1
        } else {
            fitted
        }
    }
}

/// The row on which the log panel starts on a screen `screen_height` rows high.
pub fn calculate_log_start(screen_height: i32) -> (start: i32)
    ensures
        start == log_start(screen_height as int),
{
    if screen_height <= 0 {
        return 0;
    }
    let mut start = screen_height - 8;
    if start < 12 {
        start = 12;
    }
    if start > screen_height - 2 {
        start = screen_height - 2;
    }
    if start < 1 {
        start = 1;
    }
    start
}

impl RunStats {
    /// The stats with which the run after this one begins, `run_max_floor`
    /// being the deepest floor of this run: the run counter goes up by one
    /// as long as it can, and the best depth takes in this run.
    pub open spec fn next_run(self, run_max_floor: u32) -> RunStats {
        RunStats {
            best_depth: deeper(self.best_depth, run_max_floor),
            run_number: if self.run_number == u32::MAX {
                u32::MAX
            } else {
                (self.run_number + 1) as u32
            },
        }
    }
}

} // verus!
