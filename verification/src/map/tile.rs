//! A single map cell.

use vstd::prelude::*;
use crate::color::Rgb;
use crate::map::world::{plane_color, world_color, World};

verus! {

/// One cell of a map layer.
#[derive(Clone, Copy, Debug, PartialEq, Eq, Structural)]
pub struct Tile {
    pub glyph: u16,
    pub fg: Rgb,
    pub bg: Rgb,
    pub blocks_move: bool,
    pub blocks_sight: bool,
    pub tag: u32,
    pub revealed: bool,
}

impl Default for Tile {
    fn default() -> (t: Self)
        ensures
            t == Tile::wall_tile(),
    {
        Tile::wall()
    }
}

impl Tile {
    pub const TAG_WALL: u32 = 0;

    pub const TAG_FLOOR: u32 = 1;

    pub const TAG_STAIR_UP: u32 = 2;

    pub const TAG_STAIR_DOWN: u32 = 3;

    /// An unrevealed wall: it stops both movement and sight.
    pub open spec fn wall_tile() -> Tile {
        Tile {
            glyph: 35,
            fg: Rgb { r: 90, g: 90, b: 90 },
            bg: Rgb { r: 0, g: 0, b: 0 },
            blocks_move: true,
            blocks_sight: true,
            tag: 0,
            revealed: false,
        }
    }

    /// An unrevealed open tile of plane `world` with the given glyph and tag.
    pub open spec fn open_tile(world: World, glyph: u16, tag: u32) -> Tile {
        Tile {
            glyph,
            fg: plane_color(world),
            bg: Rgb { r: 0, g: 0, b: 0 },
            blocks_move: false,
            blocks_sight: false,
            tag,
            revealed: false,
        }
    }

    /// Open floor of plane `world`.
    pub open spec fn floor_tile(world: World) -> Tile {
        Tile::open_tile(world, 46, 1)
    }

    /// A stair to the floor above, on plane `world`.
    pub open spec fn stair_up_tile(world: World) -> Tile {
        Tile::open_tile(world, 60, 2)
    }

    /// A stair to the floor below, on plane `world`.
    pub open spec fn stair_down_tile(world: World) -> Tile {
        Tile::open_tile(world, 62, 3)
    }

    /// The same tile, marked as seen.
    pub open spec fn seen(self) -> Tile {
        Tile { revealed: true, ..self }
    }

    /// Whether two tiles differ at most in having been seen.
    pub open spec fn same_but_seen(self, other: Tile) -> bool {
        self.glyph == other.glyph && self.fg == other.fg && self.bg == other.bg
            && self.blocks_move == other.blocks_move && self.blocks_sight == other.blocks_sight
            && self.tag == other.tag
    }

    /// A wall.
    pub fn wall() -> (t: Self)
        ensures
            t == Tile::wall_tile(),
    {
        Self {
            glyph: 35,
            fg: Rgb::from_u8(90, 90, 90),
            bg: Rgb::black(),
            blocks_move: true,
            blocks_sight: true,
            tag: Tile::TAG_WALL,
            revealed: false,
        }
    }

    /// Open floor of plane `world`.
    pub fn floor(world: World) -> (t: Self)
        ensures
            t == Tile::floor_tile(world),
    {
        Self {
            glyph: 46,
            fg: world_color(world),
            bg: Rgb::black(),
            blocks_move: false,
            blocks_sight: false,
            tag: Tile::TAG_FLOOR,
            revealed: false,
        }
    }

    /// A stair to the floor above, on plane `world`.
    pub fn stair_up(world: World) -> (t: Self)
        ensures
            t == Tile::stair_up_tile(world),
    {
        Self {
            glyph: 60,
            fg: world_color(world),
            bg: Rgb::black(),
            blocks_move: false,
            blocks_sight: false,
            tag: Tile::TAG_STAIR_UP,
            revealed: false,
        }
    }

    /// A stair to the floor below, on plane `world`.
    pub fn stair_down(world: World) -> (t: Self)
        ensures
            t == Tile::stair_down_tile(world),
    {
        Self {
            glyph: 62,
            fg: world_color(world),
            bg: Rgb::black(),
            blocks_move: false,
            blocks_sight: false,
            tag: Tile::TAG_STAIR_DOWN,
            revealed: false,
        }
    }
}

} // verus!
