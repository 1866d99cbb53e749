//! The consumables a new player carries.

use vstd::prelude::*;
use crate::color::Rgb;
use crate::map::world::World;

verus! {

/// What using a consumable does.
#[derive(Clone, Copy, Debug, PartialEq, Eq, Structural)]
pub enum ConsumableEffect {
    Heal { amount: i32 },
    Cleanse,
    Blink { range: i32 },
    Nova { damage: i32, radius: i32 },
}

/// The pattern of a consumable.
#[derive(Clone, Copy, Debug)]
pub struct ConsumableTemplate {
    pub name: &'static str,
    pub description: &'static str,
    pub color: Rgb,
    pub effect: ConsumableEffect,
}

impl ConsumableTemplate {
    /// The pattern with the given fields.
    pub fn new(
        name: &'static str,
        description: &'static str,
        color: Rgb,
        effect: ConsumableEffect,
    ) -> (t: Self)
        ensures
            t == (ConsumableTemplate { name, description, color, effect }),
    {
        Self { name, description, color, effect }
    }
}

/// The consumables with which a player attuned to `world` starts: a heal
/// and a nova on the red plane, a stronger heal on the blue plane, a
/// cleansing tonic on every other.
pub open spec fn starter_kit(world: World) -> Seq<ConsumableTemplate> {
    match world {
        World::Red => seq![
            ConsumableTemplate {
                name: "Thermal Draft",
                description: "Restores 8 HP with a warming rush.",
                color: Rgb { r: 255, g: 165, b: 0 },
                effect: ConsumableEffect::Heal { amount: 8 },
            },
            ConsumableTemplate {
                name: "Ember Nova",
                description: "Detonates a 3-tile blast for 6 damage.",
                color: Rgb { r: 255, g: 0, b: 0 },
                effect: ConsumableEffect::Nova { damage: 6, radius: 3 },
            },
        ],
        World::Blue => seq![
            ConsumableTemplate {
                name: "Stillwater Draught",
                description: "Heals 10 HP and purges slowing chills.",
                color: Rgb { r: 173, g: 216, b: 230 },
                effect: ConsumableEffect::Heal { amount: 10 },
            },
        ],
        _ => seq![
            ConsumableTemplate {
                name: "Prismatic Tonic",
                description: "Heals 6 HP and cleanses curse residue.",
                color: Rgb { r: 255, g: 0, b: 255 },
                effect: ConsumableEffect::Cleanse,
            },
        ],
    }
}

/// The consumables with which a player attuned to `world` starts.
pub fn starter_consumables(world: World) -> (kit: Vec<ConsumableTemplate>)
    ensures
        kit@ == starter_kit(world),
{
    let kit = match world {
        World::Red => vec![
            ConsumableTemplate::new(
                "Thermal Draft",
                "Restores 8 HP with a warming rush.",
                Rgb::orange(),
                ConsumableEffect::Heal { amount: 8 },
            ),
            ConsumableTemplate::new(
                "Ember Nova",
                "Detonates a 3-tile blast for 6 damage.",
                Rgb::red(),
                ConsumableEffect::Nova { damage: 6, radius: 3 },
            ),
        ],
        World::Blue => vec![
            ConsumableTemplate::new(
                "Stillwater Draught",
                "Heals 10 HP and purges slowing chills.",
                Rgb::light_blue(),
                ConsumableEffect::Heal { amount: 10 },
            ),
        ],
        _ => vec![
            ConsumableTemplate::new(
                "Prismatic Tonic",
                "Heals 6 HP and cleanses curse residue.",
                Rgb::magenta(),
                ConsumableEffect::Cleanse,
            ),
        ],
    };
    assert(kit@ =~= starter_kit(world));
    kit
}

} // verus!
