//! The layout skeleton that all seven planes of a floor share: rooms,
//! the corridors that join them, the stairs and the spawn point.

use vstd::prelude::*;
use bracket_random::prelude::RandomNumberGenerator;
use crate::dice::{draw_range, generator_state, range_step, seeded_generator, seeded_state};
use crate::geometry::{Point, Rect};
use crate::map::tile::Tile;
use crate::map::world::World;

verus! {

/// The most rooms a generated floor can have.
pub const MAX_ROOMS: usize = 24;

pub const MIN_ROOM_W: i32 = 6;

pub const MAX_ROOM_W: i32 = 14;

pub const MIN_ROOM_H: i32 = 5;

pub const MAX_ROOM_H: i32 = 10;

/// The distance between two coordinates.
pub open spec fn span(a: int, b: int) -> int {
    if a <= b {
        b - a
    } else {
        a - b
    }
}

/// The coordinate `steps` cells from `from` in the direction of `to`.
pub open spec fn toward(from: int, to: int, steps: int) -> int {
    if to >= from {
        from + steps
    } else {
        from - steps
    }
}

/// The `i`-th cell of the L-shaped corridor from `start` to `end`: first
/// along the row of `start` to the column of `end`, then along that column.
pub open spec fn corridor_cell(start: Point, end: Point, i: int) -> Point {
    if i <= span(start.x as int, end.x as int) {
        Point { x: toward(start.x as int, end.x as int, i) as i32, y: start.y }
    } else {
        Point {
            x: end.x,
            y: toward(start.y as int, end.y as int, i - span(start.x as int, end.x as int)) as i32,
        }
    }
}

/// The number of cells of the corridor from `start` to `end`, both ends counted.
pub open spec fn corridor_len(start: Point, end: Point) -> int {
    span(start.x as int, end.x as int) + span(start.y as int, end.y as int) + 1
}

/// The L-shaped corridor from `start` to `end`.
pub open spec fn corridor(start: Point, end: Point) -> Seq<Point> {
    Seq::new(corridor_len(start, end) as nat, |i: int| corridor_cell(start, end, i))
}

/// Walks the L-shaped corridor from `start` to `end`.
pub fn corridor_path(start: Point, end: Point) -> (path: Vec<Point>)
    requires
        corridor_len(start, end) <= usize::MAX,
    ensures
        path@ == corridor(start, end),
{
    let mut path: Vec<Point> = Vec::new();
    let mut cursor = start;
    path.push(cursor);
    while cursor.x != end.x
        invariant
            corridor_len(start, end) <= usize::MAX,
            cursor.y == start.y,
            path.len() == span(start.x as int, cursor.x as int) + 1,
            span(start.x as int, cursor.x as int) + span(cursor.x as int, end.x as int) == span(
                start.x as int,
                end.x as int,
            ),
            forall|k: int| 0 <= k < path.len() ==> path[k] == corridor_cell(start, end, k),
            cursor == corridor_cell(start, end, path.len() - 1),
        decreases span(cursor.x as int, end.x as int),
    {
        if end.x > cursor.x {
            cursor.x += 1;
        } else {
            cursor.x -= 1;
        }
        path.push(cursor);
    }
    while cursor.y != end.y
        invariant
            corridor_len(start, end) <= usize::MAX,
            cursor.x == end.x,
            path.len() == span(start.x as int, end.x as int) + span(
                start.y as int,
                cursor.y as int,
            ) + 1,
            span(start.y as int, cursor.y as int) + span(cursor.y as int, end.y as int) == span(
                start.y as int,
                end.y as int,
            ),
            forall|k: int| 0 <= k < path.len() ==> path[k] == corridor_cell(start, end, k),
        decreases span(cursor.y as int, end.y as int),
    {
        if end.y > cursor.y {
            cursor.y += 1;
        } else {
            cursor.y -= 1;
        }
        path.push(cursor);
    }
    assert(path@ =~= corridor(start, end));
    path
}

/// The shared skeleton of a floor.
#[derive(Clone, Debug)]
pub struct Substrate {
    pub width: i32,
    pub height: i32,
    pub rooms: Vec<Rect>,
    pub corridors: Vec<Vec<Point>>,
    pub stairs_up: Vec<Point>,
    pub stairs_down: Vec<Point>,
    pub spawn: Point,
}

/// What a substrate holds, as plain sequences.
#[verifier::ext_equal]
pub ghost struct Layout {
    pub width: int,
    pub height: int,
    pub rooms: Seq<Rect>,
    pub corridors: Seq<Seq<Point>>,
    pub stairs_up: Seq<Point>,
    pub stairs_down: Seq<Point>,
    pub spawn: Point,
}

impl View for Substrate {
    type V = Layout;

    open spec fn view(&self) -> Layout {
        Layout {
            width: self.width as int,
            height: self.height as int,
            rooms: self.rooms@,
            corridors: self.corridors@.map_values(|c: Vec<Point>| c@),
            stairs_up: self.stairs_up@,
            stairs_down: self.stairs_down@,
            spawn: self.spawn,
        }
    }
}

/// The centre of a map of the given size, each half rounded toward zero.
pub open spec fn map_center(width: int, height: int) -> Point {
    Point {
        x: crate::geometry::half_toward_zero(width) as i32,
        y: crate::geometry::half_toward_zero(height) as i32,
    }
}

/// A layout without rooms: the spawn point is the centre of the map.
pub open spec fn bare_layout(width: int, height: int) -> Layout {
    Layout {
        width,
        height,
        rooms: Seq::empty(),
        corridors: Seq::empty(),
        stairs_up: Seq::empty(),
        stairs_down: Seq::empty(),
        spawn: map_center(width, height),
    }
}

/// The layout that a non-empty chain of rooms gives: each room is joined to
/// the next by a corridor between their centres, the first centre is the
/// spawn point and the way up, the last centre is the way down.
pub open spec fn chained_layout(width: int, height: int, rooms: Seq<Rect>) -> Layout {
    Layout {
        width,
        height,
        rooms,
        corridors: Seq::new(
            (rooms.len() - 1) as nat,
            |i: int| corridor(rooms[i].midpoint(), rooms[i + 1].midpoint()),
        ),
        stairs_up: seq![rooms[0].midpoint()],
        stairs_down: seq![rooms[rooms.len() - 1].midpoint()],
        spawn: rooms[0].midpoint(),
    }
}

/// No two rooms touch or overlap.
pub open spec fn rooms_apart(rooms: Seq<Rect>) -> bool {
    forall|i: int, j: int| 0 <= i < j < rooms.len() ==> !(#[trigger] rooms[i]).overlaps(#[trigger] rooms[j])
}

/// Whether `rect` touches or overlaps one of `rooms`.
pub open spec fn hits_any(rooms: Seq<Rect>, rect: Rect) -> bool {
    exists|i: int| 0 <= i < rooms.len() && (#[trigger] rooms[i]).overlaps(rect)
}

impl Layout {
    /// Whether `p` lies inside one of the first `n` rooms.
    pub open spec fn in_rooms_before(self, n: int, p: Point) -> bool {
        exists|i: int| 0 <= i < n && i < self.rooms.len() && (#[trigger] self.rooms[i]).covers(p)
    }

    /// Whether `p` lies inside one of the rooms.
    pub open spec fn in_room(self, p: Point) -> bool {
        self.in_rooms_before(self.rooms.len() as int, p)
    }

    /// Whether `p` lies on one of the first `n` corridors.
    pub open spec fn on_corridors_before(self, n: int, p: Point) -> bool {
        exists|i: int|
            0 <= i < n && i < self.corridors.len() && (#[trigger] self.corridors[i]).contains(p)
    }

    /// Whether `p` lies on one of the corridors.
    pub open spec fn on_corridor(self, p: Point) -> bool {
        self.on_corridors_before(self.corridors.len() as int, p)
    }

    /// The tile that the plane `world` has on `p`: a stair where the layout
    /// has one (the way down wins over the way up), open floor in rooms and
    /// on corridors, a wall elsewhere.
    pub open spec fn painted(self, world: World, p: Point) -> Tile {
        if self.stairs_down.contains(p) {
            Tile::stair_down_tile(world)
        } else if self.stairs_up.contains(p) {
            Tile::stair_up_tile(world)
        } else if self.in_room(p) || self.on_corridor(p) {
            Tile::floor_tile(world)
        } else {
            Tile::wall_tile()
        }
    }
}

/// Every corridor between neighbouring rooms is short enough to be stored.
pub open spec fn rooms_chainable(rooms: Seq<Rect>) -> bool {
    forall|i: int|
        0 <= i < rooms.len() - 1 ==> corridor_len(
            (#[trigger] rooms[i]).midpoint(),
            rooms[i + 1].midpoint(),
        ) <= usize::MAX
}

/// Whether `rect` keeps the margins that generated rooms keep from the map's edge.
pub open spec fn inside_margins(rect: Rect, width: int, height: int) -> bool {
    2 <= rect.x1 < rect.x2 < width - 2 && 4 <= rect.y1 < rect.y2 < height - 2
}

/// Whether every room of `rooms` keeps the margins from the map's edge.
pub open spec fn rooms_inside(rooms: Seq<Rect>, width: int, height: int) -> bool {
    forall|k: int| 0 <= k < rooms.len() ==> inside_margins(#[trigger] rooms[k], width, height)
}

/// Whether a map of the given size is large enough for a room of any size
/// that can be drawn, so that every attempt proposes one.
pub open spec fn takes_rooms(width: int, height: int) -> bool {
    width >= 18 && height >= 16
}

/// One attempt at a room on a map of the given size, by a generator in state
/// `state`: the room proposed, if its size left space for one, and the state
/// of the generator afterwards. Width and height are drawn first, then the
/// corner.
pub open spec fn proposal(width: int, height: int, state: int) -> (Option<Rect>, int) {
    let room_w = range_step(state, 6, 14).0;
    let s1 = range_step(state, 6, 14).1;
    let room_h = range_step(s1, 5, 10).0;
    let s2 = range_step(s1, 5, 10).1;
    let x_max = width - room_w - 2;
    let y_max = height - room_h - 2;
    if room_w >= width - 4 || room_h >= height - 4 || y_max <= 4 {
        (None, s2)
    } else {
        let room_x = range_step(s2, 2, x_max).0;
        let s3 = range_step(s2, 2, x_max).1;
        let room_y = range_step(s3, 4, y_max).0;
        let s4 = range_step(s3, 4, y_max).1;
        (
            Some(
                Rect {
                    x1: room_x as i32,
                    x2: (room_x + room_w) as i32,
                    y1: room_y as i32,
                    y2: (room_y + room_h) as i32,
                },
            ),
            s4,
        )
    }
}

/// The rooms placed by the first `attempts` attempts of a generator seeded
/// with `seed`, and the state of the generator after them. A proposed room
/// is placed unless it touches a room placed before.
pub open spec fn rooms_after(width: int, height: int, seed: u64, attempts: nat) -> (
    Seq<Rect>,
    int,
)
    decreases attempts,
{
    if attempts == 0 {
        (Seq::empty(), seeded_state(seed))
    } else {
        let before = rooms_after(width, height, seed, (attempts - 1) as nat);
        let tried = proposal(width, height, before.1);
        match tried.0 {
            Some(rect) => if hits_any(before.0, rect) {
                (before.0, tried.1)
            } else {
                (before.0.push(rect), tried.1)
            },
            None => (before.0, tried.1),
        }
    }
}

/// How many fixed-size rooms the fallback layout fits in a row.
pub open spec fn demo_room_count(width: int) -> int {
    if width > 16 {
        (width - 2) / 15
    } else {
        0
    }
}

/// The rooms of the fallback layout: a row of rooms 12 wide and 8 high, three
/// cells apart, or one room as wide as the map allows when not even one fits.
pub open spec fn demo_rooms(width: int) -> Seq<Rect> {
    if width > 16 {
        Seq::new(
            demo_room_count(width) as nat,
            |k: int| Rect { x1: (2 + 15 * k) as i32, x2: (14 + 15 * k) as i32, y1: 8, y2: 16 },
        )
    } else {
        seq![
            Rect {
                x1: 2,
                x2: (if width - 4 < i32::MIN {
                    2 + i32::MIN
                } else {
                    width - 2
                }) as i32,
                y1: 8,
                y2: 16,
            },
        ]
    }
}

/// The fallback layout for a map of the given size.
pub open spec fn demo_plan(width: int, height: int) -> Layout {
    chained_layout(width, height, demo_rooms(width))
}

/// The layout generated from `seed`: the rooms that 24 attempts place, chained
/// in the order they were placed, or the fallback layout when none was placed.
pub open spec fn procedural_plan(width: int, height: int, seed: u64) -> Layout {
    let rooms = rooms_after(width, height, seed, 24).0;
    if rooms.len() == 0 {
        demo_plan(width, height)
    } else {
        chained_layout(width, height, rooms)
    }
}

fn overlaps_any(rooms: &Vec<Rect>, rect: &Rect) -> (r: bool)
    ensures
        r == hits_any(rooms@, *rect),
{
    let mut i: usize = 0;
    while i < rooms.len()
        invariant
            i <= rooms.len(),
            forall|k: int| 0 <= k < i ==> !(#[trigger] rooms[k]).overlaps(*rect),
        decreases rooms.len() - i,
    {
        if rooms[i].intersect(rect) {
            return true;
        }
        i += 1;
    }
    false
}

fn propose_room(rng: &mut RandomNumberGenerator, width: i32, height: i32) -> (r: Option<Rect>)
    ensures
        r == proposal(width as int, height as int, generator_state(*old(rng))).0,
        generator_state(*final(rng)) == proposal(
            width as int,
            height as int,
            generator_state(*old(rng)),
        ).1,
        r is Some ==> inside_margins(r->0, width as int, height as int),
        takes_rooms(width as int, height as int) ==> r is Some,
{
    let room_w = draw_range(rng, MIN_ROOM_W, MAX_ROOM_W);
    let room_h = draw_range(rng, MIN_ROOM_H, MAX_ROOM_H);
    if room_w as i64 >= width as i64 - 4 || room_h as i64 >= height as i64 - 4 {
        return None;
    }
    let x_max = width - room_w - 2;
    let y_max = height - room_h - 2;
    if y_max <= 4 {
        return None;
    }
    let room_x = draw_range(rng, 2, x_max);
    let room_y = draw_range(rng, 4, y_max);
    Some(Rect::with_size(room_x, room_y, room_w, room_h))
}

impl Substrate {
    /// A substrate without rooms.
    pub fn new(width: i32, height: i32) -> (s: Self)
        ensures
            s@ == bare_layout(width as int, height as int),
    {
        let s = Self {
            width,
            height,
            rooms: Vec::new(),
            corridors: Vec::new(),
            stairs_up: Vec::new(),
            stairs_down: Vec::new(),
            spawn: Point::new(width / 2, height / 2),
        };
        assert(s@ =~= bare_layout(width as int, height as int));
        s
    }

    /// Chains `rooms` in order into a layout.
    pub fn from_rooms(width: i32, height: i32, rooms: Vec<Rect>) -> (s: Self)
        requires
            rooms.len() >= 1,
            rooms_chainable(rooms@),
        ensures
            s@ == chained_layout(width as int, height as int, rooms@),
    {
        let mut corridors: Vec<Vec<Point>> = Vec::new();
        let mut i: usize = 0;
        while i + 1 < rooms.len()
            invariant
                rooms.len() >= 1,
                rooms_chainable(rooms@),
                i <= rooms.len() - 1,
                corridors.len() == i,
                forall|k: int|
                    0 <= k < i ==> (#[trigger] corridors[k])@ == corridor(
                        rooms[k].midpoint(),
                        rooms[k + 1].midpoint(),
                    ),
            decreases rooms.len() - i,
        {
            let start = rooms[i].center();
            let end = rooms[i + 1].center();
            corridors.push(corridor_path(start, end));
            i += 1;
        }
        let first = rooms[0].center();
        let last = rooms[rooms.len() - 1].center();
        let mut stairs_up: Vec<Point> = Vec::new();
        stairs_up.push(first);
        let mut stairs_down: Vec<Point> = Vec::new();
        stairs_down.push(last);
        let s = Self { width, height, rooms, corridors, stairs_up, stairs_down, spawn: first };
        assert(s@.corridors =~= chained_layout(width as int, height as int, s.rooms@).corridors);
        assert(s@.stairs_up =~= chained_layout(width as int, height as int, s.rooms@).stairs_up);
        assert(s@.stairs_down =~= chained_layout(
            width as int,
            height as int,
            s.rooms@,
        ).stairs_down);
        assert(s@ =~= chained_layout(width as int, height as int, s.rooms@));
        s
    }

    /// Generates the layout of a floor from `seed`. The same seed always
    /// gives the same layout. Unless the result is the fallback layout, it
    /// has at most 24 rooms and every room keeps the margins from the map's
    /// edge; on a map at least 18 wide and 16 high it is never the fallback.
    pub fn procedural(width: i32, height: i32, seed: u64) -> (s: Self)
        ensures
            s@ == procedural_plan(width as int, height as int, seed),
            1 <= s.rooms.len(),
            rooms_apart(s.rooms@),
            rooms_after(width as int, height as int, seed, 24).0.len() == 0 ==> s@ == demo_plan(
                width as int,
                height as int,
            ),
            rooms_after(width as int, height as int, seed, 24).0.len() > 0 ==> s.rooms.len()
                <= MAX_ROOMS && rooms_inside(s.rooms@, width as int, height as int),
            takes_rooms(width as int, height as int) ==> s.rooms.len() <= MAX_ROOMS
                && rooms_inside(s.rooms@, width as int, height as int),
    {
        let mut rng = seeded_generator(seed);
        let mut rooms: Vec<Rect> = Vec::new();
        let mut attempt: usize = 0;
        while attempt < MAX_ROOMS
            invariant
                attempt <= MAX_ROOMS,
                rooms.len() <= attempt,
                rooms@ == rooms_after(width as int, height as int, seed, attempt as nat).0,
                generator_state(rng) == rooms_after(
                    width as int,
                    height as int,
                    seed,
                    attempt as nat,
                ).1,
                rooms_apart(rooms@),
                rooms_inside(rooms@, width as int, height as int),
                takes_rooms(width as int, height as int) && attempt >= 1 ==> rooms.len() >= 1,
            decreases MAX_ROOMS - attempt,
        {
            let candidate = propose_room(&mut rng, width, height);
            attempt += 1;
            match candidate {
                Some(rect) => {
                    if !overlaps_any(&rooms, &rect) {
                        rooms.push(rect);
                    }
                },
                None => {},
            }
        }
        if rooms.len() == 0 {
            Self::demo_layout(width, height)
        } else {
            Self::from_rooms(width, height, rooms)
        }
    }

    /// The fallback layout: a row of rooms of fixed size.
    pub fn demo_layout(width: i32, height: i32) -> (s: Self)
        ensures
            s@ == demo_plan(width as int, height as int),
            1 <= s.rooms.len(),
            rooms_apart(s.rooms@),
    {
        let mut rooms: Vec<Rect> = Vec::new();
        let mut x: i64 = 2;
        while x + 12 < width as i64 - 2
            invariant
                x == 2 + 15 * rooms.len(),
                rooms.len() == 0 || 15 * (rooms.len() - 1) < width - 16,
                forall|k: int|
                    0 <= k < rooms.len() ==> #[trigger] rooms[k] == (Rect {
                        x1: (2 + 15 * k) as i32,
                        x2: (14 + 15 * k) as i32,
                        y1: 8,
                        y2: 16,
                    }),
            decreases width - x,
        {
            rooms.push(Rect::with_size(x as i32, 8, 12, 8));
            x += 15;
        }
        if rooms.len() == 0 {
            let widest: i32 = if (width as i64) - 4 < i32::MIN as i64 {
                i32::MIN
            } else {
                width - 4
            };
            rooms.push(Rect::with_size(2, 8, widest, 8));
        }
        assert(rooms@ =~= demo_rooms(width as int));
        Self::from_rooms(width, height, rooms)
    }
}

/// Generation is a function of the size and the seed: two substrates
/// generated for the same size from the same seed hold the same rooms,
/// corridors, stairs and spawn point.
pub proof fn lemma_same_seed_same_layout(a: Substrate, b: Substrate, width: i32, height: i32, seed: u64)
    requires
        a@ == procedural_plan(width as int, height as int, seed),
        b@ == procedural_plan(width as int, height as int, seed),
    ensures
        a@ == b@,
        a.width == b.width,
        a.height == b.height,
        a.rooms@ == b.rooms@,
        a.stairs_up@ == b.stairs_up@,
        a.stairs_down@ == b.stairs_down@,
        a.spawn == b.spawn,
        a.corridors.len() == b.corridors.len(),
        forall|i: int| 0 <= i < a.corridors.len() ==> (#[trigger] a.corridors[i])@ == b.corridors[i]@,
{
    assert(a@.corridors.len() == a.corridors.len());
    assert(b@.corridors.len() == b.corridors.len());
    assert forall|i: int| 0 <= i < a.corridors.len() implies (#[trigger] a.corridors[i])@
        == b.corridors[i]@ by {
        assert(a@.corridors[i] == a.corridors[i]@);
        assert(b@.corridors[i] == b.corridors[i]@);
    }
}

} // verus!
