//! One world-plane of a floor: a grid of tiles stored row by row.

use vstd::prelude::*;
use crate::geometry::{Point, Rect};
use crate::map::substrate::Substrate;
use crate::map::tile::Tile;
use crate::map::world::World;

verus! {

/// The tiles of one plane of one floor, row after row.
#[derive(Clone, Debug)]
pub struct MapLayer {
    pub world: World,
    pub width: i32,
    pub height: i32,
    pub tiles: Vec<Tile>,
}

impl MapLayer {
    /// The grid has exactly one tile for each cell.
    pub open spec fn wf(self) -> bool {
        0 <= self.width && 0 <= self.height && self.tiles.len() == self.width * self.height
    }

    /// Whether `p` lies on the grid.
    pub open spec fn contains(self, p: Point) -> bool {
        0 <= p.x < self.width && 0 <= p.y < self.height
    }

    /// The place of `p` in row-major order.
    pub open spec fn cell(self, p: Point) -> int {
        p.y * self.width + p.x
    }

    /// The tile at `p`, if `p` lies on the grid.
    pub open spec fn tile(self, p: Point) -> Option<Tile> {
        if self.contains(p) && self.cell(p) < self.tiles.len() {
            Some(self.tiles[self.cell(p)])
        } else {
            None
        }
    }

    /// Whether an actor may stand on `p`. Off the grid nothing is walkable.
    pub open spec fn walkable(self, p: Point) -> bool {
        match self.tile(p) {
            Some(t) => !t.blocks_move,
            None => false,
        }
    }

    /// Whether `p` stops sight. Off the grid everything does.
    pub open spec fn opaque(self, p: Point) -> bool {
        match self.tile(p) {
            Some(t) => t.blocks_sight,
            None => true,
        }
    }

    /// Whether the tile at `p` has been seen.
    pub open spec fn revealed(self, p: Point) -> bool {
        match self.tile(p) {
            Some(t) => t.revealed,
            None => false,
        }
    }

    /// The walkable points among the first `m` cells of row `y`, from left
    /// to right.
    pub open spec fn row_walkable(self, y: int, m: nat) -> Seq<Point>
        decreases m,
    {
        if m == 0 {
            Seq::empty()
        } else {
            let before = self.row_walkable(y, (m - 1) as nat);
            let p = Point { x: (m - 1) as i32, y: y as i32 };
            if self.walkable(p) {
                before.push(p)
            } else {
                before
            }
        }
    }

    /// The walkable points of the first `k` rows, row after row.
    pub open spec fn rows_walkable(self, k: nat) -> Seq<Point>
        decreases k,
    {
        if k == 0 {
            Seq::empty()
        } else {
            self.rows_walkable((k - 1) as nat) + self.row_walkable(
                k - 1,
                (if self.width >= 0 {
                    self.width as int
                } else {
                    0
                }) as nat,
            )
        }
    }

    /// Every walkable point, in row-major order.
    pub open spec fn walkable_listing(self) -> Seq<Point> {
        self.rows_walkable(
            (if self.height >= 0 {
                self.height as int
            } else {
                0
            }) as nat,
        )
    }

    /// Whether `p` comes before `q` when the grid is read row by row.
    pub open spec fn precedes(p: Point, q: Point) -> bool {
        p.y < q.y || (p.y == q.y && p.x < q.x)
    }

    /// The walkable points of a row are listed from left to right, each in
    /// its row and before the cell at which the listing stopped.
    pub proof fn lemma_row_walkable_sorted(self, y: int, m: nat)
        requires
            i32::MIN <= y <= i32::MAX,
            m <= i32::MAX,
        ensures
            forall|i: int|
                0 <= i < self.row_walkable(y, m).len() ==> (#[trigger] self.row_walkable(
                    y,
                    m,
                )[i]).y == y && 0 <= self.row_walkable(y, m)[i].x < m,
            forall|i: int, j: int|
                0 <= i < j < self.row_walkable(y, m).len() ==> (#[trigger] self.row_walkable(
                    y,
                    m,
                )[i]).x < (#[trigger] self.row_walkable(y, m)[j]).x,
        decreases m,
    {
        if m > 0 {
            self.lemma_row_walkable_sorted(y, (m - 1) as nat);
            let before = self.row_walkable(y, (m - 1) as nat);
            let row = self.row_walkable(y, m);
            let p = Point { x: (m - 1) as i32, y: y as i32 };
            assert forall|i: int| 0 <= i < row.len() implies (#[trigger] row[i]).y == y && 0
                <= row[i].x < m by {
                if i < before.len() {
                    assert(row[i] == before[i]);
                } else {
                    assert(row[i] == p);
                }
            }
            assert forall|i: int, j: int| 0 <= i < j < row.len() implies (#[trigger] row[i]).x < (
            #[trigger] row[j]).x by {
                assert(row[i] == before[i]);
                if j < before.len() {
                    assert(row[j] == before[j]);
                } else {
                    assert(row[j] == p);
                }
            }
        }
    }

    /// The walkable points of the first `k` rows are listed in row-major
    /// order, so that no point is listed twice.
    pub proof fn lemma_rows_walkable_sorted(self, k: nat)
        requires
            k <= i32::MAX,
        ensures
            forall|i: int|
                0 <= i < self.rows_walkable(k).len() ==> (#[trigger] self.rows_walkable(k)[i]).y
                    < k,
            forall|i: int, j: int|
                0 <= i < j < self.rows_walkable(k).len() ==> Self::precedes(
                    #[trigger] self.rows_walkable(k)[i],
                    #[trigger] self.rows_walkable(k)[j],
                ),
        decreases k,
    {
        if k > 0 {
            let before = self.rows_walkable((k - 1) as nat);
            let width = (if self.width >= 0 {
                self.width as int
            } else {
                0
            }) as nat;
            let row = self.row_walkable(k - 1, width);
            self.lemma_rows_walkable_sorted((k - 1) as nat);
            self.lemma_row_walkable_sorted(k - 1, width);
            let all = self.rows_walkable(k);
            assert(all =~= before + row);
            assert forall|i: int| 0 <= i < all.len() implies (#[trigger] all[i]).y < k by {
                if i < before.len() {
                    assert(all[i] == before[i]);
                } else {
                    assert(all[i] == row[i - before.len()]);
                }
            }
            assert forall|i: int, j: int| 0 <= i < j < all.len() implies Self::precedes(
                #[trigger] all[i],
                #[trigger] all[j],
            ) by {
                if j < before.len() {
                    assert(all[i] == before[i] && all[j] == before[j]);
                } else if i < before.len() {
                    assert(all[i] == before[i]);
                    assert(all[j] == row[j - before.len()]);
                } else {
                    assert(all[i] == row[i - before.len()]);
                    assert(all[j] == row[j - before.len()]);
                }
            }
        }
    }

    /// No walkable point is listed twice.
    pub proof fn lemma_listing_distinct(self)
        ensures
            forall|i: int, j: int|
                0 <= i < j < self.walkable_listing().len() ==> #[trigger] self.walkable_listing()[i]
                    != #[trigger] self.walkable_listing()[j],
    {
        let height = (if self.height >= 0 {
            self.height as int
        } else {
            0
        }) as nat;
        self.lemma_rows_walkable_sorted(height);
    }

    /// On a well-formed grid every cell on the grid has a tile.
    pub proof fn lemma_cell_in_range(self, p: Point)
        requires
            self.wf(),
            self.contains(p),
        ensures
            0 <= self.cell(p) < self.tiles.len(),
            self.tile(p) == Some(self.tiles[self.cell(p)]),
    {
        assert(p.y * self.width + p.x < self.height * self.width) by (nonlinear_arith)
            requires
                0 <= p.x < self.width,
                0 <= p.y < self.height,
        ;
        assert(p.y * self.width >= 0) by (nonlinear_arith)
            requires
                0 <= p.y,
                0 <= self.width,
        ;
        assert(self.height * self.width == self.width * self.height) by (nonlinear_arith);
    }

    /// Distinct cells of the grid have distinct places.
    pub proof fn lemma_cell_injective(self, p: Point, q: Point)
        requires
            self.contains(p),
            self.contains(q),
            self.cell(p) == self.cell(q),
        ensures
            p == q,
    {
        if p.y < q.y {
            assert((q.y - p.y) * self.width >= self.width) by (nonlinear_arith)
                requires
                    q.y - p.y >= 1,
                    self.width >= 0,
            ;
            assert((q.y - p.y) * self.width == q.y * self.width - p.y * self.width)
                by (nonlinear_arith);
        } else if q.y < p.y {
            assert((p.y - q.y) * self.width >= self.width) by (nonlinear_arith)
                requires
                    p.y - q.y >= 1,
                    self.width >= 0,
            ;
            assert((p.y - q.y) * self.width == p.y * self.width - q.y * self.width)
                by (nonlinear_arith);
        }
    }

    /// A grid of the given size with a wall on every cell.
    pub fn empty(world: World, width: i32, height: i32) -> (layer: Self)
        requires
            0 <= width,
            0 <= height,
            width * height <= usize::MAX,
        ensures
            layer.wf(),
            layer.world == world,
            layer.width == width,
            layer.height == height,
            forall|i: int| 0 <= i < layer.tiles.len() ==> layer.tiles[i] == Tile::wall_tile(),
    {
        assert(0 <= width * height <= 0x7fff_ffff * 0x7fff_ffff) by (nonlinear_arith)
            requires
                0 <= width <= 0x7fff_ffff,
                0 <= height <= 0x7fff_ffff,
        ;
        let size: usize = (width as u64 * height as u64) as usize;
        let mut tiles: Vec<Tile> = Vec::new();
        let mut i: usize = 0;
        while i < size
            invariant
                i <= size,
                tiles.len() == i,
                forall|k: int| 0 <= k < tiles.len() ==> tiles[k] == Tile::wall_tile(),
            decreases size - i,
        {
            tiles.push(Tile::wall());
            i += 1;
        }
        Self { world, width, height, tiles }
    }

    /// The place of (`x`, `y`) in the tile vector, if it lies on the grid.
    pub fn idx(&self, x: i32, y: i32) -> (r: Option<usize>)
        ensures
            match r {
                Some(i) => self.contains(Point { x, y }) && i == self.cell(Point { x, y }) && i
                    < self.tiles.len(),
                None => self.tile(Point { x, y }) is None,
            },
            self.wf() && self.contains(Point { x, y }) ==> r is Some,
    {
        if self.in_bounds(Point { x, y }) {
            assert(0 <= y * self.width + x <= 0x7fff_ffff * 0x7fff_ffff + 0x7fff_ffff)
                by (nonlinear_arith)
                requires
                    0 <= x < self.width <= 0x7fff_ffff,
                    0 <= y <= 0x7fff_ffff,
            ;
            assert(0 <= y * self.width <= 0x7fff_ffff * 0x7fff_ffff) by (nonlinear_arith)
                requires
                    0 <= self.width <= 0x7fff_ffff,
                    0 <= y <= 0x7fff_ffff,
            ;
            let place: u64 = y as u64 * self.width as u64 + x as u64;
            if place < self.tiles.len() as u64 {
                Some(place as usize)
            } else {
                proof {
                    if self.wf() {
                        self.lemma_cell_in_range(Point { x, y });
                    }
                }
                None
            }
        } else {
            None
        }
    }

    /// Whether `point` lies on the grid.
    pub fn in_bounds(&self, point: Point) -> (r: bool)
        ensures
            r == self.contains(point),
    {
        point.x >= 0 && point.x < self.width && point.y >= 0 && point.y < self.height
    }

    /// Replaces the tile at `point`; a point off the grid is ignored.
    pub fn set_tile(&mut self, point: Point, tile: Tile)
        ensures
            final(self).world == old(self).world,
            final(self).width == old(self).width,
            final(self).height == old(self).height,
            final(self).tiles@ == if old(self).tile(point) is Some {
                old(self).tiles@.update(old(self).cell(point), tile)
            } else {
                old(self).tiles@
            },
            old(self).wf() ==> final(self).wf(),
    {
        match self.idx(point.x, point.y) {
            Some(i) => {
                self.tiles[i] = tile;
            },
            None => {},
        }
    }

    /// The tile at `point`, if `point` lies on the grid.
    pub fn tile_at(&self, point: Point) -> (r: Option<&Tile>)
        ensures
            match r {
                Some(t) => self.tile(point) == Some(*t),
                None => self.tile(point) is None,
            },
    {
        match self.idx(point.x, point.y) {
            Some(i) => Some(&self.tiles[i]),
            None => None,
        }
    }

    /// Marks the tile at `point` as seen; a point off the grid is ignored.
    pub fn reveal_point(&mut self, point: Point)
        ensures
            final(self).world == old(self).world,
            final(self).width == old(self).width,
            final(self).height == old(self).height,
            final(self).tiles@ == if old(self).tile(point) is Some {
                old(self).tiles@.update(old(self).cell(point), old(self).tile(point)->0.seen())
            } else {
                old(self).tiles@
            },
            old(self).wf() ==> final(self).wf(),
    {
        match self.idx(point.x, point.y) {
            Some(i) => {
                self.tiles[i].revealed = true;
            },
            None => {},
        }
    }

    /// Hands out the tile at `point` for changing, if `point` lies on the grid.
    pub fn tile_at_mut(&mut self, point: Point) -> (r: Option<&mut Tile>)
        ensures
            final(self).world == old(self).world,
            final(self).width == old(self).width,
            final(self).height == old(self).height,
            match r {
                Some(t) => {
                    &&& old(self).tile(point) == Some(*t)
                    &&& final(self).tiles@ == old(self).tiles@.update(
                        old(self).cell(point),
                        *final(t),
                    )
                },
                None => old(self).tile(point) is None && final(self).tiles@ == old(self).tiles@,
            },
    {
        match self.idx(point.x, point.y) {
            Some(i) => Some(&mut self.tiles[i]),
            None => None,
        }
    }

    /// Whether an actor may stand on `point`.
    pub fn is_walkable(&self, point: Point) -> (r: bool)
        ensures
            r == self.walkable(point),
    {
        match self.tile_at(point) {
            Some(tile) => !tile.blocks_move,
            None => false,
        }
    }

    /// Whether `point` stops sight.
    pub fn blocks_sight(&self, point: Point) -> (r: bool)
        ensures
            r == self.opaque(point),
    {
        match self.tile_at(point) {
            Some(tile) => tile.blocks_sight,
            None => true,
        }
    }
    /// The first walkable point in row-major order, or the origin when there is none.
    pub fn first_walkable(&self) -> (p: Point)
        ensures
            self.walkable(p) ==> forall|q: Point| self.walkable(q) ==> !Self::precedes(q, p),
            !self.walkable(p) ==> p == (Point { x: 0, y: 0 }) && forall|q: Point|
                !self.walkable(q),
    {
        let mut y: i32 = 0;
        while y < self.height
            invariant
                0 <= y,
                forall|q: Point| q.y < y ==> !self.walkable(q),
            decreases self.height - y,
        {
            let mut x: i32 = 0;
            while x < self.width
                invariant
                    0 <= x,
                    0 <= y < self.height,
                    forall|q: Point| Self::precedes(q, Point { x, y }) ==> !self.walkable(q),
                decreases self.width - x,
            {
                let point = Point::new(x, y);
                if self.is_walkable(point) {
                    return point;
                }
                x += 1;
            }
            y += 1;
        }
        Point::new(0, 0)
    }

    /// Every walkable point, in row-major order.
    pub fn walkable_points(&self) -> (points: Vec<Point>)
        ensures
            points@ == self.walkable_listing(),
            forall|i: int| 0 <= i < points.len() ==> self.walkable(#[trigger] points[i]),
            forall|q: Point| self.walkable(q) ==> points@.contains(q),
            forall|i: int, j: int|
                0 <= i < j < points.len() ==> Self::precedes(
                    #[trigger] points[i],
                    #[trigger] points[j],
                ),
    {
        let mut points: Vec<Point> = Vec::new();
        let mut y: i32 = 0;
        while y < self.height
            invariant
                0 <= y,
                self.height >= 0 ==> y <= self.height,
                self.height < 0 ==> y == 0,
                points@ == self.rows_walkable(y as nat),
                forall|i: int| 0 <= i < points.len() ==> self.walkable(#[trigger] points[i]),
                forall|i: int| 0 <= i < points.len() ==> (#[trigger] points[i]).y < y,
                forall|q: Point| self.walkable(q) && q.y < y ==> points@.contains(q),
                forall|i: int, j: int|
                    0 <= i < j < points.len() ==> Self::precedes(
                        #[trigger] points[i],
                        #[trigger] points[j],
                    ),
            decreases self.height - y,
        {
            let mut x: i32 = 0;
            let ghost rows = points@;
            assert(points@ =~= rows + self.row_walkable(y as int, 0));
            while x < self.width
                invariant
                    0 <= x,
                    self.width >= 0 ==> x <= self.width,
                    self.width < 0 ==> x == 0,
                    0 <= y < self.height,
                    rows == self.rows_walkable(y as nat),
                    points@ == rows + self.row_walkable(y as int, x as nat),
                    forall|i: int| 0 <= i < points.len() ==> self.walkable(#[trigger] points[i]),
                    forall|i: int|
                        0 <= i < points.len() ==> Self::precedes(
                            #[trigger] points[i],
                            Point { x, y },
                        ),
                    forall|q: Point|
                        self.walkable(q) && Self::precedes(q, Point { x, y })
                            ==> points@.contains(q),
                    forall|i: int, j: int|
                        0 <= i < j < points.len() ==> Self::precedes(
                            #[trigger] points[i],
                            #[trigger] points[j],
                        ),
                decreases self.width - x,
            {
                let point = Point::new(x, y);
                let ghost before = points@;
                if self.is_walkable(point) {
                    points.push(point);
                    proof {
                        assert(points@[before.len() as int] == point);
                        assert forall|q: Point|
                            self.walkable(q) && Self::precedes(q, Point { x: (x + 1) as i32, y })
                            implies points@.contains(q) by {
                            if q == point {
                                assert(points@[before.len() as int] == q);
                            } else {
                                assert(Self::precedes(q, point));
                                assert(before.contains(q));
                                let k = choose|k: int| 0 <= k < before.len() && before[k] == q;
                                assert(points@[k] == q);
                            }
                        }
                    }
                }
                assert(points@ =~= rows + self.row_walkable(y as int, (x + 1) as nat));
                x += 1;
            }
            y += 1;
        }
        points
    }

    /// Puts `tile` on `point` and leaves every other cell as it was.
    fn stamp(&mut self, point: Point, tile: Tile)
        requires
            old(self).wf(),
        ensures
            final(self).wf(),
            final(self).world == old(self).world,
            final(self).width == old(self).width,
            final(self).height == old(self).height,
            forall|p: Point|
                final(self).contains(p) ==> #[trigger] final(self).tile(p) == if p == point {
                    Some(tile)
                } else {
                    old(self).tile(p)
                },
    {
        self.set_tile(point, tile);
        proof {
            assert forall|p: Point| final(self).contains(p) implies #[trigger] final(self).tile(p)
                == if p == point {
                Some(tile)
            } else {
                old(self).tile(p)
            } by {
                old(self).lemma_cell_in_range(p);
                if old(self).contains(point) {
                    old(self).lemma_cell_in_range(point);
                    if p != point && old(self).cell(p) == old(self).cell(point) {
                        old(self).lemma_cell_injective(p, point);
                    }
                }
            }
        }
    }

    /// Lays open floor on `point`.
    pub fn paint_floor(&mut self, point: Point)
        requires
            old(self).wf(),
        ensures
            final(self).wf(),
            final(self).world == old(self).world,
            final(self).width == old(self).width,
            final(self).height == old(self).height,
            forall|p: Point|
                final(self).contains(p) ==> #[trigger] final(self).tile(p) == if p == point {
                    Some(Tile::floor_tile(old(self).world))
                } else {
                    old(self).tile(p)
                },
    {
        let tile = Tile::floor(self.world);
        self.stamp(point, tile);
    }

    /// Lays open floor on every cell that `rect` covers.
    fn fill_rect(&mut self, rect: &Rect)
        requires
            old(self).wf(),
        ensures
            final(self).wf(),
            final(self).world == old(self).world,
            final(self).width == old(self).width,
            final(self).height == old(self).height,
            forall|p: Point|
                final(self).contains(p) ==> #[trigger] final(self).tile(p) == if rect.covers(p) {
                    Some(Tile::floor_tile(old(self).world))
                } else {
                    old(self).tile(p)
                },
    {
        let mut y: i32 = rect.y1;
        while y < rect.y2
            invariant
                rect.y1 <= y,
                self.wf(),
                self.world == old(self).world,
                self.width == old(self).width,
                self.height == old(self).height,
                forall|p: Point|
                    self.contains(p) ==> #[trigger] self.tile(p) == if rect.covers(p) && p.y < y {
                        Some(Tile::floor_tile(old(self).world))
                    } else {
                        old(self).tile(p)
                    },
            decreases rect.y2 - y,
        {
            let mut x: i32 = rect.x1;
            while x < rect.x2
                invariant
                    rect.x1 <= x,
                    rect.y1 <= y < rect.y2,
                    self.wf(),
                    self.world == old(self).world,
                    self.width == old(self).width,
                    self.height == old(self).height,
                    forall|p: Point|
                        self.contains(p) ==> #[trigger] self.tile(p) == if rect.covers(p) && (p.y
                            < y || (p.y == y && p.x < x)) {
                            Some(Tile::floor_tile(old(self).world))
                        } else {
                            old(self).tile(p)
                        },
                decreases rect.x2 - x,
            {
                self.paint_floor(Point::new(x, y));
                x += 1;
            }
            y += 1;
        }
    }

    /// Puts `tile` on every point of `points`.
    fn stamp_all(&mut self, points: &Vec<Point>, tile: Tile)
        requires
            old(self).wf(),
        ensures
            final(self).wf(),
            final(self).world == old(self).world,
            final(self).width == old(self).width,
            final(self).height == old(self).height,
            forall|p: Point|
                final(self).contains(p) ==> #[trigger] final(self).tile(p) == if points@.contains(
                    p,
                ) {
                    Some(tile)
                } else {
                    old(self).tile(p)
                },
    {
        let mut i: usize = 0;
        while i < points.len()
            invariant
                i <= points.len(),
                self.wf(),
                self.world == old(self).world,
                self.width == old(self).width,
                self.height == old(self).height,
                forall|p: Point|
                    self.contains(p) ==> #[trigger] self.tile(p) == if points@.take(
                        i as int,
                    ).contains(p) {
                        Some(tile)
                    } else {
                        old(self).tile(p)
                    },
            decreases points.len() - i,
        {
            let ghost done = points@.take(i as int);
            self.stamp(points[i], tile);
            proof {
                let next = points@.take(i + 1);
                assert(next =~= done.push(points[i as int]));
                assert forall|p: Point| next.contains(p) <==> (done.contains(p) || p
                    == points[i as int]) by {
                    if done.contains(p) {
                        let k = choose|k: int| 0 <= k < done.len() && done[k] == p;
                        assert(next[k] == p);
                    }
                    if p == points[i as int] {
                        assert(next[i as int] == p);
                    }
                }
            }
            i += 1;
        }
        assert(points@.take(points.len() as int) =~= points@);
    }

    /// Paints the plane `world` of a floor from its skeleton: walls
    /// everywhere, open floor in rooms and corridors, then the stairs.
    pub fn from_substrate(world: World, substrate: &Substrate) -> (layer: Self)
        requires
            0 <= substrate.width,
            0 <= substrate.height,
            substrate.width * substrate.height <= usize::MAX,
        ensures
            layer.wf(),
            layer.world == world,
            layer.width == substrate.width,
            layer.height == substrate.height,
            forall|p: Point|
                layer.contains(p) ==> #[trigger] layer.tile(p) == Some(
                    substrate@.painted(world, p),
                ),
    {
        let mut layer = Self::empty(world, substrate.width, substrate.height);
        proof {
            assert forall|p: Point| layer.contains(p) implies #[trigger] layer.tile(p) == Some(
                Tile::wall_tile(),
            ) by {
                layer.lemma_cell_in_range(p);
            }
        }
        let mut r: usize = 0;
        while r < substrate.rooms.len()
            invariant
                r <= substrate.rooms.len(),
                layer.wf(),
                layer.world == world,
                layer.width == substrate.width,
                layer.height == substrate.height,
                forall|p: Point|
                    layer.contains(p) ==> #[trigger] layer.tile(p) == if substrate@.in_rooms_before(
                        r as int,
                        p,
                    ) {
                        Some(Tile::floor_tile(world))
                    } else {
                        Some(Tile::wall_tile())
                    },
            decreases substrate.rooms.len() - r,
        {
            layer.fill_rect(&substrate.rooms[r]);
            r += 1;
        }
        let mut c: usize = 0;
        while c < substrate.corridors.len()
            invariant
                c <= substrate.corridors.len(),
                layer.wf(),
                layer.world == world,
                layer.width == substrate.width,
                layer.height == substrate.height,
                forall|p: Point|
                    layer.contains(p) ==> #[trigger] layer.tile(p) == if substrate@.in_room(p)
                        || substrate@.on_corridors_before(c as int, p) {
                        Some(Tile::floor_tile(world))
                    } else {
                        Some(Tile::wall_tile())
                    },
            decreases substrate.corridors.len() - c,
        {
            let floor = Tile::floor(world);
            layer.stamp_all(&substrate.corridors[c], floor);
            proof {
                assert(substrate@.corridors[c as int] == substrate.corridors[c as int]@);
            }
            c += 1;
        }
        let up = Tile::stair_up(world);
        layer.stamp_all(&substrate.stairs_up, up);
        let down = Tile::stair_down(world);
        layer.stamp_all(&substrate.stairs_down, down);
        layer
    }
}

} // verus!
