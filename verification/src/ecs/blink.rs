//! The blink: a leap of the player to a free point nearby.

use vstd::prelude::*;
use crate::dice::{draw_index, generator_state, pick_bound, range_step};
use crate::ecs::store::{index_at, occupied, EntityRecord};
use crate::ecs::world::EcsWorld;
use crate::geometry::Point;
use crate::map::dungeon::Dungeon;
use crate::map::world::{FloorId, World};

verus! {

/// A blink: from where, how far, and on which plane of which dungeon.
pub ghost struct Leap {
    pub center: Point,
    pub range: int,
    pub floor: FloorId,
    pub world: World,
    pub dungeon: Dungeon,
    pub entities: Seq<EntityRecord>,
}

impl Leap {
    /// The number of cells along one side of the square that the blink
    /// searches: `range` cells to either side of the centre.
    pub open spec fn side(self) -> int {
        if self.range >= 0 {
            2 * self.range + 1
        } else {
            0
        }
    }

    /// Whether the player can land on (`x`, `y`): the point is walkable and
    /// nobody stands on it.
    pub open spec fn free(self, x: int, y: int) -> bool {
        &&& i32::MIN <= x <= i32::MAX
        &&& i32::MIN <= y <= i32::MAX
        &&& self.dungeon.walkable(self.floor, self.world, Point { x: x as i32, y: y as i32 })
        &&& !occupied(self.entities, Point { x: x as i32, y: y as i32 }, self.floor, self.world)
    }

    /// Whether (`x`, `y`) lies in the square that the blink searches.
    pub open spec fn reaches(self, x: int, y: int) -> bool {
        &&& self.center.x - self.range <= x <= self.center.x + self.range
        &&& self.center.y - self.range <= y <= self.center.y + self.range
    }

    /// The free points among the first `m` cells of row `y` of the square,
    /// from left to right.
    pub open spec fn row_spots(self, y: int, m: nat) -> Seq<Point>
        decreases m,
    {
        if m == 0 {
            Seq::empty()
        } else {
            let before = self.row_spots(y, (m - 1) as nat);
            let x = self.center.x - self.range + (m - 1);
            if self.free(x, y) {
                before.push(Point { x: x as i32, y: y as i32 })
            } else {
                before
            }
        }
    }

    /// The free points in the first `k` rows of the square, row after row
    /// from the top.
    pub open spec fn square_spots(self, k: nat) -> Seq<Point>
        decreases k,
    {
        if k == 0 {
            Seq::empty()
        } else {
            self.square_spots((k - 1) as nat) + self.row_spots(
                self.center.y - self.range + (k - 1),
                self.side() as nat,
            )
        }
    }

    /// Every point on which the blink can land.
    pub open spec fn spots(self) -> Seq<Point> {
        self.square_spots(self.side() as nat)
    }

    /// Whether the blink can land on `p`.
    pub open spec fn lands_on(self, p: Point) -> bool {
        self.free(p.x as int, p.y as int) && self.reaches(p.x as int, p.y as int)
    }

    /// Every point of a row's free points is one the blink can land on.
    pub proof fn lemma_row_spots_free(self, y: int, m: nat, i: int)
        requires
            m <= self.side(),
            self.center.y - self.range <= y <= self.center.y + self.range,
            0 <= i < self.row_spots(y, m).len(),
        ensures
            self.lands_on(self.row_spots(y, m)[i]),
        decreases m,
    {
        let before = self.row_spots(y, (m - 1) as nat);
        if i < before.len() {
            self.lemma_row_spots_free(y, (m - 1) as nat, i);
        }
    }

    /// Wherever a blink can take the player, the point is walkable, free of
    /// entities and within range.
    pub proof fn lemma_spots_are_free(self, i: int)
        requires
            0 <= i < self.spots().len(),
        ensures
            self.lands_on(self.spots()[i]),
            self.dungeon.walkable(self.floor, self.world, self.spots()[i]),
            !occupied(self.entities, self.spots()[i], self.floor, self.world),
    {
        self.lemma_square_spots_free(self.side() as nat, i);
    }

    /// Every point among the free points of the first `k` rows is one the
    /// blink can land on.
    pub proof fn lemma_square_spots_free(self, k: nat, i: int)
        requires
            k <= self.side(),
            0 <= i < self.square_spots(k).len(),
        ensures
            self.lands_on(self.square_spots(k)[i]),
        decreases k,
    {
        let before = self.square_spots((k - 1) as nat);
        if i < before.len() {
            self.lemma_square_spots_free((k - 1) as nat, i);
        } else {
            self.lemma_row_spots_free(
                self.center.y - self.range + (k - 1),
                self.side() as nat,
                i - before.len(),
            );
        }
    }
}

impl EcsWorld {
    /// The blink of the player over `range` cells on the given plane.
    pub open spec fn leap(self, range: i32, dungeon: Dungeon, floor: FloorId, world: World) -> Leap {
        Leap {
            center: self.hero_position().point,
            range: range as int,
            floor,
            world,
            dungeon,
            entities: self.entities@,
        }
    }

    /// Picks where a blink over `range` cells takes the player: one of the
    /// free points of the square around the player, drawn by the generator,
    /// or none when the square has no free point.
    pub fn blink_destination(
        &mut self,
        range: i32,
        dungeon: &Dungeon,
        floor: FloorId,
        world: World,
    ) -> (r: Option<Point>)
        requires
            old(self).wf(),
        ensures
            final(self).wf(),
            *final(self) == (EcsWorld { rng: final(self).rng, ..*old(self) }),
            match r {
                Some(dest) => {
                    let spots = old(self).leap(range, *dungeon, floor, world).spots();
                    let bound = pick_bound(spots.len() as int);
                    &&& spots.len() > 0
                    &&& dest == spots[range_step(generator_state(old(self).rng), 0, bound).0]
                    &&& generator_state(final(self).rng) == range_step(
                        generator_state(old(self).rng),
                        0,
                        bound,
                    ).1
                    &&& old(self).leap(range, *dungeon, floor, world).lands_on(dest)
                },
                None => old(self).leap(range, *dungeon, floor, world).spots().len() == 0
                    && final(self).rng == old(self).rng,
            },
    {
        let ghost leap = self.leap(range, *dungeon, floor, world);
        let current = self.player_point();
        let side: i64 = if range >= 0 {
            2 * (range as i64) + 1
        } else {
            0
        };
        let mut candidates: Vec<Point> = Vec::new();
        let mut k: i64 = 0;
        while k < side
            invariant
                0 <= k <= side,
                side == leap.side(),
                leap == old(self).leap(range, *dungeon, floor, world),
                current == leap.center,
                *self == *old(self),
                candidates@ == leap.square_spots(k as nat),
            decreases side - k,
        {
            let y: i64 = current.y as i64 - range as i64 + k;
            let ghost rows = candidates@;
            let mut m: i64 = 0;
            assert(candidates@ =~= rows + leap.row_spots(y as int, 0));
            while m < side
                invariant
                    0 <= m <= side,
                    0 <= k < side,
                    side == leap.side(),
                    leap == old(self).leap(range, *dungeon, floor, world),
                    current == leap.center,
                    *self == *old(self),
                    y == current.y - range + k,
                    rows == leap.square_spots(k as nat),
                    candidates@ == rows + leap.row_spots(y as int, m as nat),
                decreases side - m,
            {
                let x: i64 = current.x as i64 - range as i64 + m;
                let ghost before = candidates@;
                if i32::MIN as i64 <= x && x <= i32::MAX as i64 && i32::MIN as i64 <= y && y
                    <= i32::MAX as i64 {
                    let point = Point::new(x as i32, y as i32);
                    if dungeon.is_walkable(floor, world, point) && index_at(
                        &self.entities,
                        point,
                        floor,
                        world,
                    ).is_none() {
                        candidates.push(point);
                    }
                }
                assert(candidates@ =~= rows + leap.row_spots(y as int, (m + 1) as nat));
                m += 1;
            }
            k += 1;
        }
        if candidates.len() == 0 {
            return None;
        }
        let idx = draw_index(&mut self.rng, candidates.len());
        proof {
            leap.lemma_square_spots_free(side as nat, idx as int);
        }
        Some(candidates[idx])
    }
}

} // verus!
