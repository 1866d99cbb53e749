//! The monsters of each plane.

use vstd::prelude::*;
use crate::color::Rgb;
use crate::map::world::World;

verus! {

/// The pattern of a monster.
#[derive(Clone, Copy, Debug)]
pub struct MonsterTemplate {
    pub name: &'static str,
    pub glyph: char,
    pub color: Rgb,
    /// The chance, in hundredths, that the monster takes a random step when idle.
    pub wander_chance: i32,
    pub hp: i32,
    pub power: i32,
    pub defense: i32,
}

/// The pattern with the given fields.
pub open spec fn pattern(
    name: &'static str,
    glyph: char,
    r: u8,
    g: u8,
    b: u8,
    wander_chance: i32,
    hp: i32,
    power: i32,
    defense: i32,
) -> MonsterTemplate {
    MonsterTemplate { name, glyph, color: Rgb { r, g, b }, wander_chance, hp, power, defense }
}

/// The two kinds of monster that live on the plane `world`.
pub open spec fn bestiary(world: World) -> Seq<MonsterTemplate> {
    match world {
        World::Red => seq![
            pattern("Ember Imp", 'i', 255, 140, 76, 65, 6, 3, 0),
            pattern("Cinder Wolf", 'w', 255, 90, 90, 55, 10, 4, 1),
        ],
        World::Orange => seq![
            pattern("Acid Puff", 'a', 255, 180, 90, 60, 8, 3, 0),
            pattern("Flask Golem", 'g', 210, 140, 60, 45, 14, 5, 2),
        ],
        World::Yellow => seq![
            pattern("Prism Ghost", 'p', 255, 255, 140, 35, 7, 2, 1),
            pattern("Sun Mite", 'm', 250, 230, 120, 50, 5, 2, 0),
        ],
        World::Green => seq![
            pattern("Thorn Hopper", 'h', 140, 220, 120, 50, 9, 3, 1),
            pattern("Bloom Sentinel", 'b', 90, 200, 90, 30, 16, 4, 3),
        ],
        World::Blue => seq![
            pattern("Glacier Crab", 'c', 120, 170, 255, 40, 12, 3, 2),
            pattern("Stillwater Shade", 's', 90, 140, 255, 35, 8, 4, 1),
        ],
        World::Indigo => seq![
            pattern("Mindworm", 'n', 170, 140, 255, 45, 6, 4, 0),
            pattern("Phase Stalker", 'q', 150, 120, 220, 55, 10, 5, 1),
        ],
        World::Violet => seq![
            pattern("Hex Bat", 'x', 220, 120, 255, 50, 7, 3, 0),
            pattern("Veil Revenant", 'v', 200, 90, 255, 40, 13, 5, 2),
        ],
    }
}

impl MonsterTemplate {
    /// The two kinds of monster that live on the plane `world`.
    pub fn for_world(world: World) -> (kinds: Vec<Self>)
        ensures
            kinds@ == bestiary(world),
            kinds.len() == 2,
    {
        let kinds = match world {
            World::Red => vec![
                Self::new("Ember Imp", 'i', Rgb::from_u8(255, 140, 76), 65, 6, 3, 0),
                Self::new("Cinder Wolf", 'w', Rgb::from_u8(255, 90, 90), 55, 10, 4, 1),
            ],
            World::Orange => vec![
                Self::new("Acid Puff", 'a', Rgb::from_u8(255, 180, 90), 60, 8, 3, 0),
                Self::new("Flask Golem", 'g', Rgb::from_u8(210, 140, 60), 45, 14, 5, 2),
            ],
            World::Yellow => vec![
                Self::new("Prism Ghost", 'p', Rgb::from_u8(255, 255, 140), 35, 7, 2, 1),
                Self::new("Sun Mite", 'm', Rgb::from_u8(250, 230, 120), 50, 5, 2, 0),
            ],
            World::Green => vec![
                Self::new("Thorn Hopper", 'h', Rgb::from_u8(140, 220, 120), 50, 9, 3, 1),
                Self::new("Bloom Sentinel", 'b', Rgb::from_u8(90, 200, 90), 30, 16, 4, 3),
            ],
            World::Blue => vec![
                Self::new("Glacier Crab", 'c', Rgb::from_u8(120, 170, 255), 40, 12, 3, 2),
                Self::new("Stillwater Shade", 's', Rgb::from_u8(90, 140, 255), 35, 8, 4, 1),
            ],
            World::Indigo => vec![
                Self::new("Mindworm", 'n', Rgb::from_u8(170, 140, 255), 45, 6, 4, 0),
                Self::new("Phase Stalker", 'q', Rgb::from_u8(150, 120, 220), 55, 10, 5, 1),
            ],
            World::Violet => vec![
                Self::new("Hex Bat", 'x', Rgb::from_u8(220, 120, 255), 50, 7, 3, 0),
                Self::new("Veil Revenant", 'v', Rgb::from_u8(200, 90, 255), 40, 13, 5, 2),
            ],
        };
        assert(kinds@ =~= bestiary(world));
        kinds
    }

    /// The pattern with the given fields.
    pub fn new(
        name: &'static str,
        glyph: char,
        color: Rgb,
        wander_chance: i32,
        hp: i32,
        power: i32,
        defense: i32,
    ) -> (t: Self)
        ensures
            t == (MonsterTemplate { name, glyph, color, wander_chance, hp, power, defense }),
    {
        Self { name, glyph, color, wander_chance, hp, power, defense }
    }
}

} // verus!
