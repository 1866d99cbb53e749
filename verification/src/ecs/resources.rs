//! What a pass over the entities reads and writes besides the entities:
//! a snapshot of the active plane, and the combat log.

use vstd::prelude::*;
use crate::geometry::Point;
use crate::map::layer::MapLayer;
use crate::map::world::{FloorId, World};

verus! {

/// A snapshot of one plane taken before a pass: where actors may stand
/// and what stops sight, with the player's point at that moment.
#[derive(Clone, Debug)]
pub struct MovementContext {
    pub floor: FloorId,
    pub world: World,
    pub player_point: Point,
    pub width: i32,
    pub height: i32,
    pub walkable: Vec<bool>,
    pub blocks_sight: Vec<bool>,
}

impl MovementContext {
    /// Whether `p` lies on the grid.
    pub open spec fn contains(self, p: Point) -> bool {
        0 <= p.x < self.width && 0 <= p.y < self.height
    }

    /// The place of `p` in row-major order.
    pub open spec fn cell(self, p: Point) -> int {
        p.y * self.width + p.x
    }

    /// Whether an actor may stand on `p`. Off the grid nothing is walkable.
    pub open spec fn walkable_at(self, p: Point) -> bool {
        self.contains(p) && self.cell(p) < self.walkable.len() && self.walkable[self.cell(p)]
    }

    /// Whether `p` stops sight. Off the grid everything does.
    pub open spec fn opaque_at(self, p: Point) -> bool {
        !(self.contains(p) && self.cell(p) < self.blocks_sight.len()
            && !self.blocks_sight[self.cell(p)])
    }

    /// Whether the snapshot shows `layer` as it is.
    pub open spec fn mirrors(self, layer: MapLayer) -> bool {
        &&& self.width == layer.width
        &&& self.height == layer.height
        &&& forall|p: Point| #[trigger] self.walkable_at(p) == layer.walkable(p)
        &&& forall|p: Point| #[trigger] self.opaque_at(p) == layer.opaque(p)
    }

    /// Takes the snapshot of `layer`.
    pub fn from_layer(layer: &MapLayer, floor: FloorId, world: World, player_point: Point) -> (ctx:
        Self)
        ensures
            ctx.floor == floor,
            ctx.world == world,
            ctx.player_point == player_point,
            ctx.mirrors(*layer),
    {
        let mut walkable: Vec<bool> = Vec::new();
        let mut blocks_sight: Vec<bool> = Vec::new();
        let mut i: usize = 0;
        while i < layer.tiles.len()
            invariant
                i <= layer.tiles.len(),
                walkable.len() == i,
                blocks_sight.len() == i,
                forall|k: int| 0 <= k < i ==> walkable[k] == !layer.tiles[k].blocks_move,
                forall|k: int| 0 <= k < i ==> blocks_sight[k] == layer.tiles[k].blocks_sight,
            decreases layer.tiles.len() - i,
        {
            walkable.push(!layer.tiles[i].blocks_move);
            blocks_sight.push(layer.tiles[i].blocks_sight);
            i += 1;
        }
        Self {
            floor,
            world,
            player_point,
            width: layer.width,
            height: layer.height,
            walkable,
            blocks_sight,
        }
    }

    fn place(&self, point: Point) -> (r: u64)
        requires
            self.contains(point),
        ensures
            r == self.cell(point),
    {
        assert(0 <= point.y * self.width <= 0x7fff_ffff * 0x7fff_ffff) by (nonlinear_arith)
            requires
                0 <= self.width <= 0x7fff_ffff,
                0 <= point.y <= 0x7fff_ffff,
        ;
        point.y as u64 * self.width as u64 + point.x as u64
    }

    /// Whether an actor may stand on `point`.
    pub fn is_walkable(&self, point: Point) -> (r: bool)
        ensures
            r == self.walkable_at(point),
    {
        if !self.in_bounds(point) {
            return false;
        }
        let place = self.place(point);
        if place < self.walkable.len() as u64 {
            self.walkable[place as usize]
        } else {
            false
        }
    }

    /// Whether `point` stops sight.
    pub fn blocks_sight(&self, point: Point) -> (r: bool)
        ensures
            r == self.opaque_at(point),
    {
        if !self.in_bounds(point) {
            return true;
        }
        let place = self.place(point);
        if place < self.blocks_sight.len() as u64 {
            self.blocks_sight[place as usize]
        } else {
            true
        }
    }

    /// Whether `point` lies on the grid.
    pub fn in_bounds(&self, point: Point) -> (r: bool)
        ensures
            r == self.contains(point),
    {
        point.x >= 0 && point.x < self.width && point.y >= 0 && point.y < self.height
    }
}

/// The lines that fights have written since the log was last drained.
#[derive(Clone, Debug)]
pub struct CombatLog {
    pub entries: Vec<String>,
}

impl Default for CombatLog {
    fn default() -> (log: Self)
        ensures
            log.lines() == Seq::<Seq<char>>::empty(),
    {
        let log = CombatLog { entries: Vec::new() };
        assert(log.lines() =~= Seq::<Seq<char>>::empty());
        log
    }
}

/// The text of each string of `entries`.
pub open spec fn texts(entries: Seq<String>) -> Seq<Seq<char>> {
    entries.map_values(|s: String| s@)
}

impl CombatLog {
    /// The lines of the log, oldest first.
    pub open spec fn lines(self) -> Seq<Seq<char>> {
        texts(self.entries@)
    }

    /// Appends a line.
    pub fn push(&mut self, entry: String)
        ensures
            final(self).lines() == old(self).lines().push(entry@),
    {
        self.entries.push(entry);
        assert(self.lines() =~= old(self).lines().push(entry@));
    }
}

} // verus!
