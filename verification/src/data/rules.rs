//! The rule that sets each plane apart.

use vstd::prelude::*;
use crate::map::world::World;

verus! {

/// The rule of one plane, in words.
#[derive(Clone, Copy, Debug)]
pub struct WorldRuleSet {
    pub world: World,
    pub notes: &'static str,
}

/// The rule of the plane `world`, in words.
pub open spec fn rule_text(world: World) -> &'static str {
    match world {
        World::Red => "Heat blooms amplify melee damage.",
        World::Orange => "Chemical clouds respond to wind tunnels.",
        World::Yellow => "Lens-prisms extend FOV and detect traps.",
        World::Green => "Regrowth tiles slowly mend allies.",
        World::Blue => "Stillwater grants crit bonuses to ranged.",
        World::Indigo => "Mindstorms favor teleport talent rolls.",
        World::Violet => "Curses thread through unseen resonance.",
    }
}

/// The rules of all seven planes, in spectrum order.
pub fn builtin_rules() -> (rules: Vec<WorldRuleSet>)
    ensures
        rules.len() == 7,
        forall|i: int|
            0 <= i < 7 ==> (#[trigger] rules[i]).world == World::at(i) && rules[i].notes
                == rule_text(World::at(i)),
{
    vec![
        WorldRuleSet { world: World::Red, notes: "Heat blooms amplify melee damage." },
        WorldRuleSet { world: World::Orange, notes: "Chemical clouds respond to wind tunnels." },
        WorldRuleSet { world: World::Yellow, notes: "Lens-prisms extend FOV and detect traps." },
        WorldRuleSet { world: World::Green, notes: "Regrowth tiles slowly mend allies." },
        WorldRuleSet { world: World::Blue, notes: "Stillwater grants crit bonuses to ranged." },
        WorldRuleSet { world: World::Indigo, notes: "Mindstorms favor teleport talent rolls." },
        WorldRuleSet { world: World::Violet, notes: "Curses thread through unseen resonance." },
    ]
}

} // verus!
