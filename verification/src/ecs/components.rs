//! The data that can be attached to an entity.

use vstd::prelude::*;
use crate::color::Rgb;
use crate::geometry::Point;
use crate::map::world::{FloorId, World};

verus! {

/// Where an entity stands: a point on one plane of one floor.
#[derive(Clone, Copy, Debug, PartialEq, Eq, Structural)]
pub struct Position {
    pub point: Point,
    pub floor: FloorId,
    pub world: World,
}

impl Position {
    /// Whether the position lies on the given plane of the given floor.
    pub open spec fn on(self, floor: FloorId, world: World) -> bool {
        self.floor == floor && self.world == world
    }

    /// Whether the position lies on the given plane of the given floor.
    pub fn is_on(&self, floor: FloorId, world: World) -> (r: bool)
        ensures
            r == self.on(floor, world),
    {
        self.floor == floor && self.world == world
    }
}

/// How an entity is drawn.
#[derive(Clone, Copy, Debug, PartialEq, Eq, Structural)]
pub struct Renderable {
    pub glyph: u16,
    pub color: Rgb,
    pub order: i32,
}

/// What an entity sees now and what it has ever seen.
#[derive(Clone, Debug)]
pub struct Viewshed {
    pub radius: i32,
    pub dirty: bool,
    pub visible: Vec<Point>,
    pub remembered: Vec<Point>,
}

impl Default for Viewshed {
    fn default() -> (v: Self)
        ensures
            v.radius == 0,
            !v.dirty,
            v.visible@ == Seq::<Point>::empty(),
            v.remembered@ == Seq::<Point>::empty(),
    {
        Viewshed { radius: 0, dirty: false, visible: Vec::new(), remembered: Vec::new() }
    }
}

/// The energy an actor has stored and gains each pass.
#[derive(Clone, Copy, Debug, PartialEq, Eq, Structural)]
pub struct Actor {
    pub energy: i32,
    pub speed: i32,
}

impl Actor {
    /// The energy after one more pass: the sum of energy and speed, held
    /// inside the range of `i32`.
    pub open spec fn charged(self) -> int {
        if self.energy + self.speed > i32::MAX {
            i32::MAX as int
        } else if self.energy + self.speed < i32::MIN {
            i32::MIN as int
        } else {
            self.energy + self.speed
        }
    }

    /// Adds the speed to the energy, saturating at the ends of the range.
    pub fn accrue(&mut self)
        ensures
            final(self).energy == old(self).charged(),
            final(self).speed == old(self).speed,
    {
        let sum: i64 = self.energy as i64 + self.speed as i64;
        if sum > i32::MAX as i64 {
            self.energy = i32::MAX;
        } else if sum < i32::MIN as i64 {
            self.energy = i32::MIN;
        } else {
            self.energy = sum as i32;
        }
    }
}

/// A passage to another plane.
#[derive(Clone, Copy, Debug, PartialEq, Eq, Structural)]
pub struct Portal {
    pub to_world: World,
    pub cost: i32,
    pub key_mask: u32,
    pub cooldown: i32,
}

/// The plane an entity belongs to, and the planes it resists or fears.
#[derive(Clone, Copy, Debug, PartialEq, Eq, Structural)]
pub struct WorldAffinity {
    pub primary: World,
    pub resist: Option<World>,
    pub vulnerable: Option<World>,
}

impl Default for WorldAffinity {
    fn default() -> (a: Self)
        ensures
            a == (WorldAffinity { primary: World::Red, resist: None, vulnerable: None }),
    {
        WorldAffinity { primary: World::Red, resist: None, vulnerable: None }
    }
}

/// The planes an entity has unlocked.
#[derive(Clone, Debug)]
pub struct PlaneAttunements {
    pub unlocked: Vec<World>,
    pub perks: u64,
}

impl Default for PlaneAttunements {
    fn default() -> (a: Self)
        ensures
            a.unlocked@ == Seq::<World>::empty(),
            a.perks == 0,
    {
        PlaneAttunements { unlocked: Vec::new(), perks: 0 }
    }
}

/// The number of a concordance between planes.
#[derive(Clone, Copy, Debug, PartialEq, Eq, Structural, Hash)]
pub struct ConcordanceId(pub u64);

impl Default for ConcordanceId {
    fn default() -> (c: Self)
        ensures
            c == ConcordanceId(0),
    {
        ConcordanceId(0)
    }
}

/// A step that an entity wants to take in the current pass.
#[derive(Clone, Copy, Debug, PartialEq, Eq, Structural)]
pub struct IntentStep {
    pub delta: Point,
}

impl Default for IntentStep {
    fn default() -> (i: Self)
        ensures
            i == (IntentStep { delta: Point { x: 0, y: 0 } }),
    {
        Self { delta: Point::new(0, 0) }
    }
}

/// Marks the one entity that the player steers.
#[derive(Clone, Copy, Debug, PartialEq, Eq, Structural)]
pub struct PlayerTag;

impl Default for PlayerTag {
    fn default() -> (t: Self) {
        PlayerTag
    }
}

/// Marks an entity that the monster behaviour steers.
#[derive(Clone, Copy, Debug, PartialEq, Eq, Structural)]
pub struct MonsterTag;

impl Default for MonsterTag {
    fn default() -> (t: Self) {
        MonsterTag
    }
}

/// The name a monster goes by in the log.
#[derive(Clone, Debug)]
pub struct Monster {
    pub name: String,
}

/// How a monster decides to move.
#[derive(Clone, Copy, Debug, PartialEq, Eq, Structural)]
pub struct MonsterBrain {
    /// The chance, in hundredths, that an idle monster takes a random step.
    pub wander_chance: i32,
}

/// The damage that an attacker of the given power deals to a defender of
/// the given defense: their difference, but never less than 1.
pub open spec fn attack_damage(power: int, defense: int) -> int {
    if power - defense >= 1 {
        power - defense
    } else {
        1
    }
}

/// The hit points left after `damage`, never below 0. Damage that is not
/// positive leaves them as they are.
pub open spec fn hp_after_damage(hp: int, damage: int) -> int {
    if damage <= 0 {
        hp
    } else if hp - damage >= 0 {
        hp - damage
    } else {
        0
    }
}

/// The hit points after healing by `amount`, held between 0 and `max_hp`.
pub open spec fn hp_after_heal(hp: int, max_hp: int, amount: int) -> int {
    if hp + amount >= max_hp {
        max_hp
    } else if hp + amount <= 0 {
        0
    } else {
        hp + amount
    }
}

/// No blow deals less than 1 damage, however weak the attacker and
/// however well defended the target.
pub proof fn lemma_damage_at_least_one(power: int, defense: int)
    ensures
        attack_damage(power, defense) >= 1,
{
}

/// Healing never lifts the hit points above the maximum, and never
/// lowers them below what they were when the amount is not negative.
pub proof fn lemma_heal_stays_in_range(stats: CombatStats, amount: int)
    requires
        stats.wf(),
    ensures
        stats.healed(amount).wf(),
        stats.healed(amount).hp <= stats.max_hp,
        amount >= 0 ==> stats.healed(amount).hp >= stats.hp,
{
}

/// Healing at full health gains nothing.
pub proof fn lemma_heal_at_full_health(stats: CombatStats, amount: int)
    requires
        stats.wf(),
        stats.hp == stats.max_hp,
        amount >= 0,
    ensures
        stats.healed(amount) == stats,
        stats.healed(amount).hp - stats.hp == 0,
{
}

/// What decides a fight.
#[derive(Clone, Copy, Debug, PartialEq, Eq, Structural)]
pub struct CombatStats {
    pub max_hp: i32,
    pub hp: i32,
    pub power: i32,
    pub defense: i32,
}

impl CombatStats {
    /// The hit points lie between 0 and the maximum.
    pub open spec fn wf(self) -> bool {
        0 <= self.hp <= self.max_hp
    }

    /// At most three tenths of the hit points are left.
    pub open spec fn low_health(self) -> bool {
        self.max_hp > 0 && 10 * self.hp <= 3 * self.max_hp
    }

    /// The stats after taking `damage`.
    pub open spec fn hurt(self, damage: int) -> CombatStats {
        CombatStats { hp: hp_after_damage(self.hp as int, damage) as i32, ..self }
    }

    /// The stats after healing by `amount`.
    pub open spec fn healed(self, amount: int) -> CombatStats {
        CombatStats { hp: hp_after_heal(self.hp as int, self.max_hp as int, amount) as i32, ..self }
    }

    /// Stats at full health; a negative `hp` counts as 0.
    pub open spec fn fresh(hp: int, power: i32, defense: i32) -> CombatStats {
        if hp >= 0 {
            CombatStats { max_hp: hp as i32, hp: hp as i32, power, defense }
        } else {
            CombatStats { max_hp: 0, hp: 0, power, defense }
        }
    }

    /// Stats at full health; a negative `hp` counts as 0.
    pub fn at_full_health(hp: i32, power: i32, defense: i32) -> (s: Self)
        ensures
            s == Self::fresh(hp as int, power, defense),
            s.wf(),
    {
        let hp = if hp >= 0 {
            hp
        } else {
            0
        };
        CombatStats { max_hp: hp, hp, power, defense }
    }

    /// Whether at most three tenths of the hit points are left.
    pub fn is_low_health(&self) -> (r: bool)
        ensures
            r == self.low_health(),
    {
        self.max_hp > 0 && 10 * (self.hp as i64) <= 3 * (self.max_hp as i64)
    }

    /// The damage that one hit of `self` deals to `defender`.
    pub fn damage_against(&self, defender: &CombatStats) -> (damage: i64)
        ensures
            damage == attack_damage(self.power as int, defender.defense as int),
            damage >= 1,
    {
        let raw: i64 = self.power as i64 - defender.defense as i64;
        if raw >= 1 {
            raw
        } else {
            1
        }
    }

    /// Takes `damage` off the hit points, stopping at 0.
    pub fn take_damage(&mut self, damage: i64)
        ensures
            *final(self) == old(self).hurt(damage as int),
            old(self).wf() ==> final(self).wf() && final(self).hp <= old(self).hp,
    {
        if damage > 0 {
            if self.hp as i64 >= damage {
                self.hp = (self.hp as i64 - damage) as i32;
            } else {
                self.hp = 0;
            }
        }
    }

    /// Heals by `amount`, stopping at the maximum; returns the hit points gained.
    pub fn heal(&mut self, amount: i32) -> (gained: i32)
        requires
            old(self).wf(),
        ensures
            *final(self) == old(self).healed(amount as int),
            final(self).wf(),
            gained == final(self).hp - old(self).hp,
            old(self).hp == old(self).max_hp && amount >= 0 ==> gained == 0,
            amount >= 0 ==> gained >= 0,
    {
        let before = self.hp;
        let sum: i64 = self.hp as i64 + amount as i64;
        if sum >= self.max_hp as i64 {
            self.hp = self.max_hp;
        } else if sum <= 0 {
            self.hp = 0;
        } else {
            self.hp = sum as i32;
        }
        self.hp - before
    }
}

/// What using a consumable does.
#[derive(Clone, Copy, Debug, PartialEq, Eq, Structural)]
pub enum InventoryEffect {
    Heal { amount: i32 },
    Cleanse,
    Blink { range: i32 },
    Nova { damage: i32, radius: i32 },
}

/// One consumable the player carries.
#[derive(Clone, Debug)]
pub struct InventorySlot {
    pub name: String,
    pub description: String,
    pub uses_remaining: i32,
    pub effect: InventoryEffect,
    pub color: Rgb,
}

/// The consumables the player carries, in the order of their slots.
#[derive(Clone, Debug)]
pub struct Inventory {
    pub slots: Vec<InventorySlot>,
}

impl Default for Inventory {
    fn default() -> (i: Self)
        ensures
            i.slots@.len() == 0,
    {
        Inventory { slots: Vec::new() }
    }
}

} // verus!
