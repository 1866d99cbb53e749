//! The four passes that make up one turn of the simulation, in the order
//! in which they run: energy, monster intent, movement, field of view.

use vstd::prelude::*;
use bracket_random::prelude::RandomNumberGenerator;
use crate::dice::{draw_range, generator_state, range_step};
use crate::ecs::components::{
    attack_damage, hp_after_damage, Actor, CombatStats, IntentStep, Position, Viewshed,
};
use crate::ecs::resources::{CombatLog, MovementContext};
use crate::ecs::store::{same_planes, same_roster, stats_sound, EntityRecord};
use crate::geometry::{is_within_distance, within_distance, Point};
use crate::messages::{claw, claw_line, shatter, shatter_line};

verus! {

/// The record after the energy pass: an actor has gained its speed.
pub open spec fn energized(rec: EntityRecord) -> EntityRecord {
    EntityRecord {
        actor: match rec.actor {
            Some(a) => Some(Actor { energy: a.charged() as i32, speed: a.speed }),
            None => None,
        },
        ..rec
    }
}

/// The first pass: every actor gains energy.
#[derive(Clone, Copy, Debug)]
pub struct EnergySystem;

impl Default for EnergySystem {
    fn default() -> (s: Self) {
        EnergySystem
    }
}

impl EnergySystem {
    /// Whether `post` is what the pass makes of `pre`.
    pub open spec fn ran(pre: Seq<EntityRecord>, post: Seq<EntityRecord>) -> bool {
        &&& post.len() == pre.len()
        &&& forall|i: int| 0 <= i < pre.len() ==> #[trigger] post[i] == energized(pre[i])
    }

    /// Runs the pass: adds to the energy of every actor its speed.
    pub fn run(&self, entities: &mut Vec<EntityRecord>)
        ensures
            Self::ran(old(entities)@, final(entities)@),
            same_roster(old(entities)@, final(entities)@),
            same_planes(old(entities)@, final(entities)@),
            stats_sound(old(entities)@) ==> stats_sound(final(entities)@),
    {
        let mut i: usize = 0;
        while i < entities.len()
            invariant
                i <= entities.len(),
                entities.len() == old(entities).len(),
                forall|k: int| 0 <= k < i ==> #[trigger] entities[k] == energized(old(entities)[k]),
                forall|k: int| i <= k < entities.len() ==> #[trigger] entities[k] == old(entities)[k],
            decreases entities.len() - i,
        {
            match &mut entities[i].actor {
                Some(actor) => {
                    actor.accrue();
                },
                None => {},
            }
            i += 1;
        }
    }
}

/// The direction of `d`: 1, 0 or -1.
pub open spec fn sign(d: int) -> int {
    if d > 0 {
        1
    } else if d < 0 {
        -1
    } else {
        0
    }
}

/// The size of `d` without its direction.
pub open spec fn magnitude(d: int) -> int {
    if d >= 0 {
        d
    } else {
        -d
    }
}

/// Whether an entity on `from` can take the step `dir`: the step is not
/// empty and ends on a walkable point.
pub open spec fn usable(from: Point, dir: Point, ctx: MovementContext) -> bool {
    dir != (Point { x: 0, y: 0 }) && match from.offset(dir) {
        Some(target) => ctx.walkable_at(target),
        None => false,
    }
}

/// The single step that carries an entity on `from` along the displacement
/// (`dx`, `dy`): one cell along the axis on which the displacement is larger
/// (the x axis on a tie) if that step is usable, else one cell along the
/// other axis if that is usable, else none.
pub open spec fn axis_step(from: Point, dx: int, dy: int, ctx: MovementContext) -> Option<Point> {
    let along_x = Point { x: sign(dx) as i32, y: 0 };
    let along_y = Point { x: 0, y: sign(dy) as i32 };
    let first = if magnitude(dx) >= magnitude(dy) {
        along_x
    } else {
        along_y
    };
    let second = if magnitude(dx) >= magnitude(dy) {
        along_y
    } else {
        along_x
    };
    if usable(from, first, ctx) {
        Some(first)
    } else if usable(from, second, ctx) {
        Some(second)
    } else {
        None
    }
}

fn can_step(from: Point, dir: Point, ctx: &MovementContext) -> (r: bool)
    ensures
        r == usable(from, dir, *ctx),
{
    if dir.x == 0 && dir.y == 0 {
        return false;
    }
    match from.checked_offset(dir) {
        Some(target) => ctx.is_walkable(target),
        None => false,
    }
}

fn unit(d: i64) -> (r: i32)
    ensures
        r == sign(d as int),
{
    if d > 0 {
        1
    } else if d < 0 {
        -1
    } else {
        0
    }
}

/// Picks the step along the displacement (`dx`, `dy`), the larger axis first.
pub fn try_steps(from: Point, dx: i64, dy: i64, movement: &MovementContext) -> (r: Option<Point>)
    requires
        -0x1_0000_0000 <= dx <= 0x1_0000_0000,
        -0x1_0000_0000 <= dy <= 0x1_0000_0000,
    ensures
        r == axis_step(from, dx as int, dy as int, *movement),
{
    let along_x = Point::new(unit(dx), 0);
    let along_y = Point::new(0, unit(dy));
    let width = if dx >= 0 {
        dx
    } else {
        -dx
    };
    let height = if dy >= 0 {
        dy
    } else {
        -dy
    };
    let (first, second) = if width >= height {
        (along_x, along_y)
    } else {
        (along_y, along_x)
    };
    if can_step(from, first, movement) {
        Some(first)
    } else if can_step(from, second, movement) {
        Some(second)
    } else {
        None
    }
}

/// The step that brings an entity on `from` nearer to `to`.
pub open spec fn approach(from: Point, to: Point, ctx: MovementContext) -> Option<Point> {
    axis_step(from, to.x - from.x, to.y - from.y, ctx)
}

/// The step that takes an entity on `from` further from `to`.
pub open spec fn retreat(from: Point, to: Point, ctx: MovementContext) -> Option<Point> {
    axis_step(from, from.x - to.x, from.y - to.y, ctx)
}

/// Picks the step that brings an entity on `from` nearer to `to`.
pub fn step_towards(from: Point, to: Point, movement: &MovementContext) -> (r: Option<Point>)
    ensures
        r == approach(from, to, *movement),
{
    try_steps(from, to.x as i64 - from.x as i64, to.y as i64 - from.y as i64, movement)
}

/// Picks the step that takes an entity on `from` further from `to`.
pub fn step_away(from: Point, to: Point, movement: &MovementContext) -> (r: Option<Point>)
    ensures
        r == retreat(from, to, *movement),
{
    try_steps(from, from.x as i64 - to.x as i64, from.y as i64 - to.y as i64, movement)
}

/// How near the player must be for a weakened monster to flee.
pub const FLEE_DISTANCE: i32 = 6;

/// How near the player must be for a monster to give chase.
pub const CHASE_DISTANCE: i32 = 8;

/// Whether a monster reacts to the player: it has combat stats and the
/// player is within 8. A monster that reacts flees or gives chase, and does
/// not wander on that pass, whether or not it finds a step to take.
pub open spec fn alarmed(pos: Position, stats: Option<CombatStats>, ctx: MovementContext) -> bool {
    stats is Some && within_distance(pos.point, ctx.player_point, 8)
}

/// The step by which a monster reacts to the player: away from the player
/// when the monster is low on health and the player within 6, else toward
/// the player when the player is within 8; none when no such step is
/// usable. A monster without combat stats does not react.
pub open spec fn pursuit(pos: Position, stats: Option<CombatStats>, ctx: MovementContext) -> Option<
    Point,
> {
    match stats {
        Some(s) => if s.low_health() && within_distance(pos.point, ctx.player_point, 6) {
            retreat(pos.point, ctx.player_point, ctx)
        } else if within_distance(pos.point, ctx.player_point, 8) {
            approach(pos.point, ctx.player_point, ctx)
        } else {
            None
        },
        None => None,
    }
}

/// Whether a monster reacts to the player.
pub fn is_alarmed(pos: &Position, stats: &Option<CombatStats>, ctx: &MovementContext) -> (r: bool)
    ensures
        r == alarmed(*pos, *stats, *ctx),
{
    stats.is_some() && is_within_distance(pos.point, ctx.player_point, CHASE_DISTANCE)
}

/// Decides how a monster reacts to the player.
pub fn react(pos: &Position, stats: &Option<CombatStats>, ctx: &MovementContext) -> (r: Option<
    Point,
>)
    ensures
        r == pursuit(*pos, *stats, *ctx),
{
    match stats {
        Some(s) => {
            if s.is_low_health() && is_within_distance(pos.point, ctx.player_point, FLEE_DISTANCE) {
                step_away(pos.point, ctx.player_point, ctx)
            } else if is_within_distance(pos.point, ctx.player_point, CHASE_DISTANCE) {
                step_towards(pos.point, ctx.player_point, ctx)
            } else {
                None
            }
        },
        None => None,
    }
}

/// The four directions in which an idle monster may wander.
pub open spec fn cardinal(i: int) -> Point {
    if i == 0 {
        Point { x: 1, y: 0 }
    } else if i == 1 {
        Point { x: -1i32, y: 0 }
    } else if i == 2 {
        Point { x: 0, y: 1 }
    } else {
        Point { x: 0, y: -1i32 }
    }
}

/// The direction at place `i` of the four in which an idle monster may wander.
pub fn cardinal_step(i: i32) -> (dir: Point)
    ensures
        dir == cardinal(i as int),
{
    if i == 0 {
        Point::new(1, 0)
    } else if i == 1 {
        Point::new(-1, 0)
    } else if i == 2 {
        Point::new(0, 1)
    } else {
        Point::new(0, -1)
    }
}

/// The random step of an idle monster on `from`, given what the generator
/// drew: a number `roll` below 100 and the place `pick` of a direction. The
/// monster steps if `roll` does not exceed its wander chance and the step is
/// usable.
pub open spec fn idle_step(
    from: Point,
    wander_chance: int,
    roll: int,
    pick: int,
    ctx: MovementContext,
) -> Option<Point> {
    if roll <= wander_chance && usable(from, cardinal(pick), ctx) {
        Some(cardinal(pick))
    } else {
        None
    }
}

/// What the intent pass does to one entity while the generator is in
/// `state`: the step the entity holds afterwards, and the state in which the
/// generator is left. A monster that reacts to the player takes the step of
/// its flight or chase, or keeps what it held when that step is blocked,
/// and draws nothing; an idle one draws its roll and, if the roll allows a
/// step, a direction.
pub open spec fn wandered(rec: EntityRecord, ctx: MovementContext, state: int) -> (
    Option<IntentStep>,
    int,
) {
    if !rec.roams_on(ctx.floor, ctx.world) {
        (rec.intent, state)
    } else if alarmed(rec.position->0, rec.stats, ctx) {
        match pursuit(rec.position->0, rec.stats, ctx) {
            Some(step) => (Some(IntentStep { delta: step }), state),
            None => (rec.intent, state),
        }
    } else {
        let roll = range_step(state, 0, 100).0;
        let rolled = range_step(state, 0, 100).1;
        if roll > rec.brain->0.wander_chance {
            (rec.intent, rolled)
        } else {
            let pick = range_step(rolled, 0, 4).0;
            let picked = range_step(rolled, 0, 4).1;
            match idle_step(
                rec.position->0.point,
                rec.brain->0.wander_chance as int,
                roll,
                pick,
                ctx,
            ) {
                Some(step) => (Some(IntentStep { delta: step }), picked),
                None => (rec.intent, picked),
            }
        }
    }
}

/// The state of the generator after the intent pass has dealt with the
/// first `n` entities.
pub open spec fn wander_state(
    entities: Seq<EntityRecord>,
    ctx: MovementContext,
    state: int,
    n: nat,
) -> int
    decreases n,
{
    if n == 0 {
        state
    } else {
        wandered(entities[n - 1], ctx, wander_state(entities, ctx, state, (n - 1) as nat)).1
    }
}

/// A weakened monster that has the player within 6 flees and does
/// nothing else, whatever the generator holds: it draws nothing, takes no
/// step toward the player and no random one. It steps away along one axis
/// when it can, and keeps what it held when both steps away are blocked.
pub proof fn lemma_weak_monster_flees(rec: EntityRecord, ctx: MovementContext, state: int)
    requires
        rec.roams_on(ctx.floor, ctx.world),
        rec.stats is Some,
        rec.stats->0.low_health(),
        within_distance(rec.position->0.point, ctx.player_point, 6),
    ensures
        wandered(rec, ctx, state).1 == state,
        wandered(rec, ctx, state).0 == match retreat(
            rec.position->0.point,
            ctx.player_point,
            ctx,
        ) {
            Some(step) => Some(IntentStep { delta: step }),
            None => rec.intent,
        },
        match retreat(rec.position->0.point, ctx.player_point, ctx) {
            Some(step) => {
                let dx = rec.position->0.point.x - ctx.player_point.x;
                let dy = rec.position->0.point.y - ctx.player_point.y;
                (step.x == sign(dx) && step.y == 0 && dx != 0) || (step.x == 0 && step.y == sign(
                    dy,
                ) && dy != 0)
            },
            None => true,
        },
{
    assert(within_distance(rec.position->0.point, ctx.player_point, 8)) by (nonlinear_arith)
        requires
            within_distance(rec.position->0.point, ctx.player_point, 6),
    {
    }
}

/// A monster that reacts to the player never wanders: whether or not it
/// finds a step to take, it draws nothing from the generator, and the step
/// it holds afterwards is that of its flight or chase, or the one it held.
pub proof fn lemma_alarmed_monster_does_not_wander(
    rec: EntityRecord,
    ctx: MovementContext,
    state: int,
)
    requires
        rec.roams_on(ctx.floor, ctx.world),
        alarmed(rec.position->0, rec.stats, ctx),
    ensures
        wandered(rec, ctx, state).1 == state,
        wandered(rec, ctx, state).0 == match pursuit(rec.position->0, rec.stats, ctx) {
            Some(step) => Some(IntentStep { delta: step }),
            None => rec.intent,
        },
{
}

/// The second pass: every monster on the active plane decides on a step.
#[derive(Clone, Copy, Debug)]
pub struct WanderSystem;

impl Default for WanderSystem {
    fn default() -> (s: Self) {
        WanderSystem
    }
}

impl WanderSystem {
    /// Whether the pass, started with the generator in state `state`, makes
    /// `post` of `pre` and leaves the generator in state `left`.
    pub open spec fn ran(
        pre: Seq<EntityRecord>,
        ctx: MovementContext,
        state: int,
        post: Seq<EntityRecord>,
        left: int,
    ) -> bool {
        &&& post.len() == pre.len()
        &&& forall|i: int|
            0 <= i < pre.len() ==> #[trigger] post[i] == (EntityRecord {
                intent: wandered(pre[i], ctx, wander_state(pre, ctx, state, i as nat)).0,
                ..pre[i]
            })
        &&& left == wander_state(pre, ctx, state, pre.len())
    }

    /// Runs the pass: every monster on the active plane decides on a step,
    /// drawing from `rng` where it wanders.
    pub fn run(
        &self,
        entities: &mut Vec<EntityRecord>,
        movement: &MovementContext,
        rng: &mut RandomNumberGenerator,
    )
        ensures
            Self::ran(
                old(entities)@,
                *movement,
                generator_state(*old(rng)),
                final(entities)@,
                generator_state(*final(rng)),
            ),
            same_roster(old(entities)@, final(entities)@),
            same_planes(old(entities)@, final(entities)@),
            stats_sound(old(entities)@) ==> stats_sound(final(entities)@),
    {
        let mut i: usize = 0;
        while i < entities.len()
            invariant
                i <= entities.len(),
                entities.len() == old(entities).len(),
                generator_state(*rng) == wander_state(
                    old(entities)@,
                    *movement,
                    generator_state(*old(rng)),
                    i as nat,
                ),
                forall|k: int|
                    0 <= k < i ==> #[trigger] entities[k] == (EntityRecord {
                        intent: wandered(
                            old(entities)[k],
                            *movement,
                            wander_state(
                                old(entities)@,
                                *movement,
                                generator_state(*old(rng)),
                                k as nat,
                            ),
                        ).0,
                        ..old(entities)[k]
                    }),
                forall|k: int| i <= k < entities.len() ==> #[trigger] entities[k] == old(entities)[k],
            decreases entities.len() - i,
        {
            let step = Self::decide(&entities[i], movement, rng);
            match step {
                Some(delta) => {
                    entities[i].intent = Some(IntentStep { delta });
                },
                None => {},
            }
            i += 1;
        }
    }

    /// Decides the step of one entity, if the pass gives it a new one.
    pub fn decide(rec: &EntityRecord, movement: &MovementContext, rng: &mut RandomNumberGenerator) -> (r:
        Option<Point>)
        ensures
            generator_state(*final(rng)) == wandered(*rec, *movement, generator_state(*old(rng))).1,
            match r {
                Some(delta) => wandered(*rec, *movement, generator_state(*old(rng))).0 == Some(
                    IntentStep { delta },
                ),
                None => wandered(*rec, *movement, generator_state(*old(rng))).0 == rec.intent,
            },
    {
        let pos = match &rec.position {
            Some(pos) => *pos,
            None => {
                return None;
            },
        };
        let brain = match &rec.brain {
            Some(brain) => *brain,
            None => {
                return None;
            },
        };
        if rec.monster_tag.is_none() || !pos.is_on(movement.floor, movement.world) {
            return None;
        }
        if is_alarmed(&pos, &rec.stats, movement) {
            return react(&pos, &rec.stats, movement);
        }
        let roll = draw_range(rng, 0, 100);
        if roll > brain.wander_chance {
            return None;
        }
        let pick = draw_range(rng, 0, 4);
        let dir = cardinal_step(pick);
        if can_step(pos.point, dir, movement) {
            Some(dir)
        } else {
            None
        }
    }
}

/// Whether the entity takes part in the movement pass: it stands on the
/// active plane and holds a pending step.
pub open spec fn acts(rec: EntityRecord, ctx: MovementContext) -> bool {
    rec.stands_on(ctx.floor, ctx.world) && rec.intent is Some
}

/// The point on which the pending step of the entity would end.
pub open spec fn target(rec: EntityRecord) -> Option<Point> {
    rec.position->0.point.offset(rec.intent->0.delta)
}

/// The same viewshed, marked as needing a new computation.
pub open spec fn dirtied(viewshed: Option<Viewshed>) -> Option<Viewshed> {
    match viewshed {
        Some(v) => Some(Viewshed { dirty: true, ..v }),
        None => None,
    }
}

/// The record after its pending step has been taken or found blocked: the
/// entity stands on the target if that is walkable, and holds no step.
pub open spec fn stepped(rec: EntityRecord, ctx: MovementContext) -> EntityRecord {
    match target(rec) {
        Some(t) => if ctx.walkable_at(t) {
            EntityRecord {
                position: Some(Position { point: t, ..rec.position->0 }),
                viewshed: dirtied(rec.viewshed),
                intent: None,
                ..rec
            }
        } else {
            EntityRecord { intent: None, ..rec }
        },
        None => EntityRecord { intent: None, ..rec },
    }
}

/// Whether the pending step of the entity ends on the player, who stands at `player`.
pub open spec fn strikes(rec: EntityRecord, ctx: MovementContext, player: Option<Position>) -> bool {
    acts(rec, ctx) && match player {
        Some(p) => target(rec) == Some(p.point) && rec.position->0.on(p.floor, p.world),
        None => false,
    }
}

/// What the movement pass makes of an entity other than the player: one
/// that strikes stays where it is, any other takes its step if it can;
/// either way the pending step is gone.
pub open spec fn resolved(rec: EntityRecord, ctx: MovementContext, player: Option<Position>) -> EntityRecord {
    if !acts(rec, ctx) {
        rec
    } else if strikes(rec, ctx, player) {
        EntityRecord { intent: None, ..rec }
    } else {
        stepped(rec, ctx)
    }
}

/// What the movement pass makes of the player before any monster moves.
pub open spec fn hero_moved(rec: EntityRecord, ctx: MovementContext) -> EntityRecord {
    if acts(rec, ctx) {
        stepped(rec, ctx)
    } else {
        rec
    }
}

/// The damage of the blow that the entity lands on a player of the given
/// defense, if it strikes and has combat stats to strike with.
pub open spec fn blow(
    rec: EntityRecord,
    ctx: MovementContext,
    player: Option<Position>,
    defense: int,
) -> Option<int> {
    if strikes(rec, ctx, player) && rec.stats is Some {
        Some(attack_damage(rec.stats->0.power as int, defense))
    } else {
        None
    }
}

/// The hit points of the player after the first `n` entities have moved,
/// the player itself being the first of them.
pub open spec fn hp_through(
    pre: Seq<EntityRecord>,
    ctx: MovementContext,
    player: Option<Position>,
    defense: int,
    hp: int,
    n: nat,
) -> int
    decreases n,
{
    if n <= 1 {
        hp
    } else {
        let before = hp_through(pre, ctx, player, defense, hp, (n - 1) as nat);
        match blow(pre[n - 1], ctx, player, defense) {
            Some(damage) => hp_after_damage(before, damage),
            None => before,
        }
    }
}

/// The lines written to the combat log while the first `n` entities moved:
/// one for each blow and one more whenever a blow leaves the player at 0.
pub open spec fn lines_through(
    pre: Seq<EntityRecord>,
    ctx: MovementContext,
    player: Option<Position>,
    defense: int,
    hp: int,
    n: nat,
) -> Seq<Seq<char>>
    decreases n,
{
    if n <= 1 {
        Seq::empty()
    } else {
        let before = lines_through(pre, ctx, player, defense, hp, (n - 1) as nat);
        match blow(pre[n - 1], ctx, player, defense) {
            Some(damage) => {
                let hit = before.push(claw_line(pre[n - 1].log_name(), damage));
                if hp_after_damage(
                    hp_through(pre, ctx, player, defense, hp, (n - 1) as nat),
                    damage,
                ) == 0 {
                    hit.push(shatter_line())
                } else {
                    hit
                }
            },
            None => before,
        }
    }
}

/// The player's record once the first `n` entities have moved.
pub open spec fn hero_through(pre: Seq<EntityRecord>, ctx: MovementContext, n: nat) -> EntityRecord {
    let hero = hero_moved(pre[0], ctx);
    match hero.stats {
        Some(s) => EntityRecord {
            stats: Some(
                CombatStats {
                    hp: hp_through(pre, ctx, hero.position, s.defense as int, s.hp as int, n) as i32,
                    ..s
                },
            ),
            ..hero
        },
        None => hero,
    }
}

/// The lines that the movement of the first `n` entities adds to the combat log.
pub open spec fn log_through(pre: Seq<EntityRecord>, ctx: MovementContext, n: nat) -> Seq<Seq<char>> {
    let hero = hero_moved(pre[0], ctx);
    match hero.stats {
        Some(s) => lines_through(pre, ctx, hero.position, s.defense as int, s.hp as int, n),
        None => Seq::empty(),
    }
}

/// A step into a wall, or off the grid, leaves the mover where it is and
/// takes its pending step away; and unless the step ends on the player
/// nothing is written about it.
pub proof fn lemma_blocked_step_stays(
    rec: EntityRecord,
    ctx: MovementContext,
    player: Option<Position>,
    defense: int,
)
    requires
        acts(rec, ctx),
        match target(rec) {
            Some(t) => !ctx.walkable_at(t),
            None => true,
        },
    ensures
        stepped(rec, ctx) == (EntityRecord { intent: None, ..rec }),
        hero_moved(rec, ctx) == (EntityRecord { intent: None, ..rec }),
        resolved(rec, ctx, player) == (EntityRecord { intent: None, ..rec }),
        resolved(rec, ctx, player).position == rec.position,
        !strikes(rec, ctx, player) ==> blow(rec, ctx, player, defense) is None,
{
}

/// Whether the first entity of the store is the player and no other is.
pub open spec fn hero_leads(entities: Seq<EntityRecord>) -> bool {
    &&& entities.len() >= 1
    &&& entities[0].player is Some
    &&& forall|i: int| 1 <= i < entities.len() ==> (#[trigger] entities[i]).player is None
}

/// The third pass: pending steps are taken, or turn into blows against the player.
#[derive(Clone, Copy, Debug)]
pub struct MovementSystem;

impl Default for MovementSystem {
    fn default() -> (s: Self) {
        MovementSystem
    }
}

impl MovementSystem {
    /// Whether the pass makes `post` of `pre` and adds `written` to the
    /// combat log. The player moves first; every other entity then acts
    /// against the place the player has reached.
    pub open spec fn ran(
        pre: Seq<EntityRecord>,
        ctx: MovementContext,
        post: Seq<EntityRecord>,
        written: Seq<Seq<char>>,
    ) -> bool {
        &&& post.len() == pre.len()
        &&& post[0] == hero_through(pre, ctx, pre.len())
        &&& forall|i: int|
            1 <= i < pre.len() ==> #[trigger] post[i] == resolved(
                pre[i],
                ctx,
                hero_moved(pre[0], ctx).position,
            )
        &&& written == log_through(pre, ctx, pre.len())
    }

    /// Runs the pass: the player's pending step first, then everybody
    /// else's, blows against the player being written to `combat_log`.
    pub fn run(
        &self,
        entities: &mut Vec<EntityRecord>,
        movement: &MovementContext,
        combat_log: &mut CombatLog,
    )
        requires
            hero_leads(old(entities)@),
            stats_sound(old(entities)@),
        ensures
            Self::ran(
                old(entities)@,
                *movement,
                final(entities)@,
                final(combat_log).lines().skip(old(combat_log).lines().len() as int),
            ),
            old(combat_log).lines().is_prefix_of(final(combat_log).lines()),
            same_roster(old(entities)@, final(entities)@),
            same_planes(old(entities)@, final(entities)@),
            stats_sound(final(entities)@),
    {
        Self::settle(&mut entities[0], movement);
        let snapshot = entities[0].position;
        let ghost hero = entities[0];
        assert(hero == hero_moved(old(entities)[0], *movement));
        let ghost logged = old(combat_log).lines();
        let mut i: usize = 1;
        assert(combat_log.lines() =~= logged + log_through(old(entities)@, *movement, 1));
        while i < entities.len()
            invariant
                1 <= i <= entities.len(),
                entities.len() == old(entities).len(),
                hero_leads(old(entities)@),
                stats_sound(old(entities)@),
                hero == hero_moved(old(entities)[0], *movement),
                snapshot == hero.position,
                logged == old(combat_log).lines(),
                entities[0] == hero_through(old(entities)@, *movement, i as nat),
                stats_sound(entities@),
                match hero.stats {
                    Some(s) => 0 <= hp_through(
                        old(entities)@,
                        *movement,
                        snapshot,
                        s.defense as int,
                        s.hp as int,
                        i as nat,
                    ) <= s.hp,
                    None => true,
                },
                combat_log.lines() == logged + log_through(old(entities)@, *movement, i as nat),
                forall|k: int|
                    1 <= k < i ==> #[trigger] entities[k] == resolved(
                        old(entities)[k],
                        *movement,
                        snapshot,
                    ),
                forall|k: int| i <= k < entities.len() ==> #[trigger] entities[k] == old(entities)[k],
            decreases entities.len() - i,
        {
            let ghost before_log = combat_log.lines();
            if Self::aims_at(&entities[i], movement, &snapshot) {
                let attacker = entities[i].stats;
                let name = entities[i].name_for_log();
                entities[i].intent = None;
                match attacker {
                    Some(attacker_stats) => {
                        match &mut entities[0].stats {
                            Some(player_stats) => {
                                let damage = attacker_stats.damage_against(player_stats);
                                player_stats.take_damage(damage);
                                let fallen = player_stats.hp == 0;
                                combat_log.push(claw(name.as_str(), damage));
                                if fallen {
                                    combat_log.push(shatter());
                                }
                            },
                            None => {},
                        }
                    },
                    None => {},
                }
            } else {
                Self::settle(&mut entities[i], movement);
            }
            proof {
                let n = (i + 1) as nat;
                assert(hero.stats is Some ==> combat_log.lines() =~= logged + log_through(
                    old(entities)@,
                    *movement,
                    n,
                ));
                assert(hero.stats is None ==> combat_log.lines() =~= logged + log_through(
                    old(entities)@,
                    *movement,
                    n,
                ));
            }
            i += 1;
        }
        proof {
            let written = log_through(old(entities)@, *movement, old(entities)@.len());
            assert(combat_log.lines().skip(logged.len() as int) =~= written);
        }
    }

    /// Whether the pending step of `rec` ends on the player.
    fn aims_at(rec: &EntityRecord, movement: &MovementContext, player: &Option<Position>) -> (r:
        bool)
        ensures
            r == strikes(*rec, *movement, *player),
    {
        let pos = match &rec.position {
            Some(pos) => *pos,
            None => {
                return false;
            },
        };
        let intent = match &rec.intent {
            Some(intent) => *intent,
            None => {
                return false;
            },
        };
        if !pos.is_on(movement.floor, movement.world) {
            return false;
        }
        match player {
            Some(p) => {
                match pos.point.checked_offset(intent.delta) {
                    Some(t) => t == p.point && pos.is_on(p.floor, p.world),
                    None => false,
                }
            },
            None => false,
        }
    }

    /// Takes the pending step of `rec`, if it holds one on the active plane.
    fn settle(rec: &mut EntityRecord, movement: &MovementContext)
        ensures
            *final(rec) == hero_moved(*old(rec), *movement),
    {
        let pos = match &rec.position {
            Some(pos) => *pos,
            None => {
                return ;
            },
        };
        let intent = match &rec.intent {
            Some(intent) => *intent,
            None => {
                return ;
            },
        };
        if !pos.is_on(movement.floor, movement.world) {
            return ;
        }
        rec.intent = None;
        match pos.point.checked_offset(intent.delta) {
            Some(t) => {
                if movement.is_walkable(t) {
                    rec.position = Some(Position { point: t, floor: pos.floor, world: pos.world });
                    match &mut rec.viewshed {
                        Some(vs) => {
                            vs.dirty = true;
                        },
                        None => {},
                    }
                }
            },
            None => {},
        }
    }
}

/// Computes what can be seen from a point of a plane. The simulation does
/// not rely on what an implementation returns: points off the grid are
/// dropped, and the rest is taken as seen.
pub trait FieldOfView {
    /// The points seen from `origin` up to `radius` cells away.
    fn field_of_view(&self, movement: &MovementContext, origin: Point, radius: i32) -> Vec<Point>;
}

/// Whether `seen` is an answer of `sight` to the question what is seen
/// from `origin` up to `radius` cells away.
pub open spec fn answered<S: FieldOfView>(
    sight: S,
    ctx: MovementContext,
    origin: Point,
    radius: i32,
    seen: Vec<Point>,
) -> bool {
    call_ensures(S::field_of_view, (&sight, &ctx, origin, radius), seen)
}

/// The points of `seen` that lie on the grid, in their order.
pub open spec fn on_grid(seen: Seq<Point>, ctx: MovementContext) -> Seq<Point>
    decreases seen.len(),
{
    if seen.len() == 0 {
        Seq::empty()
    } else if ctx.contains(seen.last()) {
        on_grid(seen.drop_last(), ctx).push(seen.last())
    } else {
        on_grid(seen.drop_last(), ctx)
    }
}

/// What is remembered once `seen` has been seen: what was remembered
/// before, followed by each point of `seen` that was not yet among it.
pub open spec fn absorbed(remembered: Seq<Point>, seen: Seq<Point>) -> Seq<Point>
    decreases seen.len(),
{
    if seen.len() == 0 {
        remembered
    } else {
        let before = absorbed(remembered, seen.drop_last());
        if before.contains(seen.last()) {
            before
        } else {
            before.push(seen.last())
        }
    }
}

/// Nothing is ever forgotten: what was remembered stays, in its place.
pub proof fn lemma_absorbed_keeps(remembered: Seq<Point>, seen: Seq<Point>)
    ensures
        remembered.is_prefix_of(absorbed(remembered, seen)),
    decreases seen.len(),
{
    if seen.len() > 0 {
        lemma_absorbed_keeps(remembered, seen.drop_last());
    }
}

/// Everything seen is remembered afterwards.
pub proof fn lemma_absorbed_holds_seen(remembered: Seq<Point>, seen: Seq<Point>, k: int)
    requires
        0 <= k < seen.len(),
    ensures
        absorbed(remembered, seen).contains(seen[k]),
    decreases seen.len(),
{
    let before = absorbed(remembered, seen.drop_last());
    let after = absorbed(remembered, seen);
    if k == seen.len() - 1 {
        if !before.contains(seen.last()) {
            assert(after[before.len() as int] == seen.last());
        }
    } else {
        lemma_absorbed_holds_seen(remembered, seen.drop_last(), k);
        let j = choose|j: int| 0 <= j < before.len() && before[j] == seen[k];
        assert(after[j] == seen[k]);
    }
}

/// Whether `p` is among `points`.
pub fn has_point(points: &Vec<Point>, p: Point) -> (r: bool)
    ensures
        r == points@.contains(p),
{
    let mut i: usize = 0;
    while i < points.len()
        invariant
            i <= points.len(),
            forall|k: int| 0 <= k < i ==> points[k] != p,
        decreases points.len() - i,
    {
        if points[i] == p {
            return true;
        }
        i += 1;
    }
    false
}

impl Viewshed {
    /// Whether `post` is `pre` brought up to date with some view of the
    /// plane: all that is visible lies on the grid, and it has been added to
    /// what is remembered.
    pub open spec fn refreshed(pre: Viewshed, post: Viewshed, ctx: MovementContext) -> bool {
        &&& post.radius == pre.radius
        &&& !post.dirty
        &&& forall|k: int| 0 <= k < post.visible.len() ==> ctx.contains(#[trigger] post.visible[k])
        &&& post.remembered@ == absorbed(pre.remembered@, post.visible@)
    }

    /// Brings the viewshed up to date with `seen`, the points that a field
    /// of view computation has returned.
    pub fn refresh(&mut self, movement: &MovementContext, seen: Vec<Point>)
        ensures
            final(self).radius == old(self).radius,
            !final(self).dirty,
            final(self).visible@ == on_grid(seen@, *movement),
            final(self).remembered@ == absorbed(old(self).remembered@, final(self).visible@),
            Viewshed::refreshed(*old(self), *final(self), *movement),
    {
        let mut visible: Vec<Point> = Vec::new();
        let mut i: usize = 0;
        while i < seen.len()
            invariant
                i <= seen.len(),
                visible@ == on_grid(seen@.take(i as int), *movement),
                forall|k: int| 0 <= k < visible.len() ==> movement.contains(#[trigger] visible[k]),
                self.remembered@ == absorbed(old(self).remembered@, visible@),
                self.radius == old(self).radius,
            decreases seen.len() - i,
        {
            let point = seen[i];
            proof {
                assert(seen@.take(i + 1).drop_last() =~= seen@.take(i as int));
                assert(seen@.take(i + 1).last() == point);
            }
            if movement.in_bounds(point) {
                let ghost before = visible@;
                visible.push(point);
                proof {
                    assert(visible@.drop_last() =~= before);
                }
                if !has_point(&self.remembered, point) {
                    self.remembered.push(point);
                }
            }
            i += 1;
        }
        assert(seen@.take(seen.len() as int) =~= seen@);
        self.visible = visible;
        self.dirty = false;
    }
}

/// Whether the field of view pass computes the entity's view anew: it has
/// a viewshed marked dirty and stands on the active plane.
pub open spec fn looks(rec: EntityRecord, ctx: MovementContext) -> bool {
    rec.stands_on(ctx.floor, ctx.world) && match rec.viewshed {
        Some(v) => v.dirty,
        None => false,
    }
}

/// The fourth pass: every dirty viewshed on the active plane is computed anew.
#[derive(Clone, Copy, Debug)]
pub struct FovSystem;

impl Default for FovSystem {
    fn default() -> (s: Self) {
        FovSystem
    }
}

impl FovSystem {
    /// Whether `post` is what the pass makes of `pre` with `sight` to
    /// compute the views: for every entity that looks, `sight` has been
    /// asked what is seen from where the entity stands, within the radius
    /// of its viewshed, and the viewshed has been brought up to date with
    /// the answer; nothing else has changed.
    pub open spec fn ran<S: FieldOfView>(
        pre: Seq<EntityRecord>,
        ctx: MovementContext,
        sight: S,
        post: Seq<EntityRecord>,
    ) -> bool {
        &&& post.len() == pre.len()
        &&& forall|i: int|
            0 <= i < pre.len() ==> if looks(pre[i], ctx) {
                &&& (#[trigger] post[i]).viewshed is Some
                &&& Viewshed::refreshed(pre[i].viewshed->0, post[i].viewshed->0, ctx)
                &&& post[i] == (EntityRecord { viewshed: post[i].viewshed, ..pre[i] })
                &&& exists|seen: Vec<Point>|
                    #[trigger] answered(
                        sight,
                        ctx,
                        pre[i].position->0.point,
                        pre[i].viewshed->0.radius,
                        seen,
                    ) && post[i].viewshed->0.visible@ == on_grid(seen@, ctx)
            } else {
                post[i] == pre[i]
            }
    }

    /// Runs the pass: brings every dirty viewshed on the active plane up
    /// to date with what `sight` computes.
    pub fn run<S: FieldOfView>(
        &self,
        entities: &mut Vec<EntityRecord>,
        movement: &MovementContext,
        sight: &S,
    )
        ensures
            Self::ran(old(entities)@, *movement, *sight, final(entities)@),
            same_roster(old(entities)@, final(entities)@),
            same_planes(old(entities)@, final(entities)@),
            stats_sound(old(entities)@) ==> stats_sound(final(entities)@),
    {
        let mut i: usize = 0;
        while i < entities.len()
            invariant
                i <= entities.len(),
                entities.len() == old(entities).len(),
                forall|k: int|
                    0 <= k < i ==> if looks(old(entities)[k], *movement) {
                        &&& (#[trigger] entities[k]).viewshed is Some
                        &&& Viewshed::refreshed(
                            old(entities)[k].viewshed->0,
                            entities[k].viewshed->0,
                            *movement,
                        )
                        &&& entities[k] == (EntityRecord {
                            viewshed: entities[k].viewshed,
                            ..old(entities)[k]
                        })
                        &&& exists|seen: Vec<Point>|
                            #[trigger] answered(
                                *sight,
                                *movement,
                                old(entities)[k].position->0.point,
                                old(entities)[k].viewshed->0.radius,
                                seen,
                            ) && entities[k].viewshed->0.visible@ == on_grid(seen@, *movement)
                    } else {
                        entities[k] == old(entities)[k]
                    },
                forall|k: int| i <= k < entities.len() ==> #[trigger] entities[k] == old(entities)[k],
            decreases entities.len() - i,
        {
            let on_plane = entities[i].is_on(movement.floor, movement.world);
            let origin = match &entities[i].position {
                Some(pos) => pos.point,
                None => Point::new(0, 0),
            };
            match &mut entities[i].viewshed {
                Some(viewshed) => {
                    if viewshed.dirty && on_plane {
                        let seen = sight.field_of_view(movement, origin, viewshed.radius);
                        let ghost answer = seen;
                        viewshed.refresh(movement, seen);
                        proof {
                            assert(answered(*sight, *movement, origin, viewshed.radius, answer));
                        }
                    }
                },
                None => {},
            }
            i += 1;
        }
    }
}

} // verus!
