//! The seven world-planes and the identity of a floor.

use vstd::prelude::*;
use crate::color::Rgb;

verus! {

pub const DEFAULT_MAP_WIDTH: i32 = 80;

pub const DEFAULT_MAP_HEIGHT: i32 = 48;

/// One of the seven parallel planes of a floor, in spectrum order.
#[derive(Copy, Clone, Debug, PartialEq, Eq, Structural)]
pub enum World {
    Red,
    Orange,
    Yellow,
    Green,
    Blue,
    Indigo,
    Violet,
}

/// Every plane, in spectrum order.
pub const SPECTRUM: [World; 7] = [
    World::Red,
    World::Orange,
    World::Yellow,
    World::Green,
    World::Blue,
    World::Indigo,
    World::Violet,
];

impl Default for World {
    fn default() -> (w: Self)
        ensures
            w == World::Red,
    {
        World::Red
    }
}

impl World {
    /// The place of the plane in the spectrum, from 0 for red to 6 for violet.
    pub open spec fn index(self) -> int {
        match self {
            World::Red => 0,
            World::Orange => 1,
            World::Yellow => 2,
            World::Green => 3,
            World::Blue => 4,
            World::Indigo => 5,
            World::Violet => 6,
        }
    }

    /// The plane at place `i` of the spectrum; violet for any place past the end.
    pub open spec fn at(i: int) -> World {
        if i == 0 {
            World::Red
        } else if i == 1 {
            World::Orange
        } else if i == 2 {
            World::Yellow
        } else if i == 3 {
            World::Green
        } else if i == 4 {
            World::Blue
        } else if i == 5 {
            World::Indigo
        } else {
            World::Violet
        }
    }

    /// The plane `delta` places further along the cyclic spectrum.
    pub open spec fn cycled(self, delta: int) -> World {
        World::at((self.index() + delta) % 7)
    }

    /// The display name of the plane.
    pub open spec fn name(self) -> Seq<char> {
        match self {
            World::Red => "Red"@,
            World::Orange => "Orange"@,
            World::Yellow => "Yellow"@,
            World::Green => "Green"@,
            World::Blue => "Blue"@,
            World::Indigo => "Indigo"@,
            World::Violet => "Violet"@,
        }
    }

    /// The display name of the plane.
    pub fn as_str(&self) -> (s: &'static str)
        ensures
            s@ == self.name(),
    {
        match self {
            World::Red => "Red",
            World::Orange => "Orange",
            World::Yellow => "Yellow",
            World::Green => "Green",
            World::Blue => "Blue",
            World::Indigo => "Indigo",
            World::Violet => "Violet",
        }
    }

    /// The place of the plane in the spectrum.
    pub fn spectrum_index(&self) -> (i: usize)
        ensures
            i == self.index(),
            i < 7,
            SPECTRUM[i as int] == *self,
    {
        match self {
            World::Red => 0,
            World::Orange => 1,
            World::Yellow => 2,
            World::Green => 3,
            World::Blue => 4,
            World::Indigo => 5,
            World::Violet => 6,
        }
    }

    /// Steps `delta` places along the spectrum, wrapping at both ends.
    pub fn cycle(self, delta: i32) -> (w: Self)
        ensures
            w == self.cycled(delta as int),
            w.index() == (self.index() + delta) % 7,
    {
        let idx: i64 = self.spectrum_index() as i64;
        // 2147483653 is the least multiple of 7 that makes every sum non-negative.
        let shifted: i64 = idx + delta as i64 + 2147483653;
        let next: usize = (shifted % 7) as usize;
        assert(next == (self.index() + delta) % 7);
        SPECTRUM[next]
    }
}

/// Cycling forward and then back by the same amount returns to the start.
pub proof fn lemma_cycle_round_trip(w: World, delta: int)
    ensures
        w.cycled(delta).cycled(-delta) == w,
{
    assert(World::at(w.index()) == w);
}

/// Cycling by a whole turn of the spectrum changes nothing.
pub proof fn lemma_cycle_full_turn(w: World)
    ensures
        w.cycled(7) == w,
        w.cycled(0) == w,
{
    assert(World::at(w.index()) == w);
}

/// The colour in which a plane's tiles and the player are drawn.
pub open spec fn plane_color(world: World) -> Rgb {
    match world {
        World::Red => Rgb { r: 255, g: 95, b: 86 },
        World::Orange => Rgb { r: 255, g: 170, b: 64 },
        World::Yellow => Rgb { r: 241, g: 241, b: 87 },
        World::Green => Rgb { r: 126, g: 211, b: 33 },
        World::Blue => Rgb { r: 96, g: 165, b: 255 },
        World::Indigo => Rgb { r: 120, g: 98, b: 240 },
        World::Violet => Rgb { r: 193, g: 126, b: 255 },
    }
}

/// The colour in which a plane's tiles and the player are drawn.
pub fn world_color(world: World) -> (c: Rgb)
    ensures
        c == plane_color(world),
{
    match world {
        World::Red => Rgb::from_u8(255, 95, 86),
        World::Orange => Rgb::from_u8(255, 170, 64),
        World::Yellow => Rgb::from_u8(241, 241, 87),
        World::Green => Rgb::from_u8(126, 211, 33),
        World::Blue => Rgb::from_u8(96, 165, 255),
        World::Indigo => Rgb::from_u8(120, 98, 240),
        World::Violet => Rgb::from_u8(193, 126, 255),
    }
}

/// The number of a floor, counted from the surface.
#[derive(Copy, Clone, Debug, PartialEq, Eq, Structural)]
pub struct FloorId(pub u32);

} // verus!
