//! Floors with their seven planes, and the dungeon that holds the floors.

use vstd::prelude::*;
use crate::geometry::Point;
use crate::map::layer::MapLayer;
use crate::map::substrate::{bare_layout, procedural_plan, Layout, Substrate};
use crate::map::world::{DEFAULT_MAP_HEIGHT, DEFAULT_MAP_WIDTH, FloorId, World};

verus! {

/// Whether a grid of the given size can be stored.
pub open spec fn storable(width: int, height: int) -> bool {
    0 <= width && 0 <= height && width * height <= usize::MAX
}

/// Whether `layer` is the plane `world` painted from `plan`, some of its
/// tiles possibly seen since.
pub open spec fn paints(layer: MapLayer, plan: Layout, world: World) -> bool {
    &&& layer.wf()
    &&& layer.world == world
    &&& layer.width == plan.width
    &&& layer.height == plan.height
    &&& forall|p: Point|
        layer.contains(p) ==> (#[trigger] layer.tile(p)) is Some && layer.tile(p)->0.same_but_seen(
            plan.painted(world, p),
        )
}

/// One floor: its skeleton and the seven planes painted from it.
#[derive(Clone, Debug)]
pub struct WorldFloor {
    pub id: FloorId,
    pub substrate: Substrate,
    pub layers: [MapLayer; 7],
}

impl WorldFloor {
    /// Every plane is painted from the floor's one skeleton.
    pub open spec fn wf(self) -> bool {
        forall|i: int| 0 <= i < 7 ==> paints(#[trigger] self.layers[i], self.substrate@, World::at(i))
    }

    /// The plane `world` of the floor.
    pub open spec fn plane(self, world: World) -> MapLayer {
        self.layers[world.index()]
    }

    /// Every tile is as it was painted: none has been seen yet.
    pub open spec fn pristine(self) -> bool {
        forall|w: World, p: Point|
            self.plane(w).contains(p) ==> #[trigger] self.plane(w).tile(p) == Some(
                self.substrate@.painted(w, p),
            )
    }

    /// A floor of solid rock.
    pub fn empty(id: FloorId, width: i32, height: i32) -> (floor: Self)
        requires
            storable(width as int, height as int),
        ensures
            floor.wf(),
            floor.pristine(),
            floor.id == id,
            floor.substrate@ == bare_layout(width as int, height as int),
    {
        let substrate = Substrate::new(width, height);
        Self::from_substrate(id, substrate)
    }

    /// The floor `id` generated from the seed that belongs to its number.
    pub fn demo(id: FloorId, width: i32, height: i32) -> (floor: Self)
        requires
            storable(width as int, height as int),
        ensures
            floor.wf(),
            floor.pristine(),
            floor.id == id,
            floor.substrate@ == procedural_plan(width as int, height as int, (id.0 + 1) as u64),
    {
        let seed: u64 = id.0 as u64 + 1;
        Self::from_seed(id, width, height, seed)
    }

    /// The floor `id` generated from `seed`.
    pub fn from_seed(id: FloorId, width: i32, height: i32, seed: u64) -> (floor: Self)
        requires
            storable(width as int, height as int),
        ensures
            floor.wf(),
            floor.pristine(),
            floor.id == id,
            floor.substrate@ == procedural_plan(width as int, height as int, seed),
    {
        let substrate = Substrate::procedural(width, height, seed);
        Self::from_substrate(id, substrate)
    }

    /// Paints all seven planes from `substrate`.
    pub fn from_substrate(id: FloorId, substrate: Substrate) -> (floor: Self)
        requires
            storable(substrate.width as int, substrate.height as int),
        ensures
            floor.wf(),
            floor.pristine(),
            floor.id == id,
            floor.substrate == substrate,
    {
        let red = MapLayer::from_substrate(World::Red, &substrate);
        let orange = MapLayer::from_substrate(World::Orange, &substrate);
        let yellow = MapLayer::from_substrate(World::Yellow, &substrate);
        let green = MapLayer::from_substrate(World::Green, &substrate);
        let blue = MapLayer::from_substrate(World::Blue, &substrate);
        let indigo = MapLayer::from_substrate(World::Indigo, &substrate);
        let violet = MapLayer::from_substrate(World::Violet, &substrate);
        let layers = [red, orange, yellow, green, blue, indigo, violet];
        Self { id, substrate, layers }
    }

    /// The plane `world` of the floor.
    pub fn layer(&self, world: World) -> (layer: &MapLayer)
        ensures
            *layer == self.plane(world),
    {
        let idx = world.spectrum_index();
        &self.layers[idx]
    }

    /// Hands out the plane `world` for changing.
    pub fn layer_mut(&mut self, world: World) -> (layer: &mut MapLayer)
        ensures
            *layer == old(self).plane(world),
            final(self).id == old(self).id,
            final(self).substrate == old(self).substrate,
            final(self).layers@ == old(self).layers@.update(world.index(), *final(layer)),
    {
        let idx = world.spectrum_index();
        &mut self.layers[idx]
    }

    /// Where the player first arrives on the floor.
    pub fn spawn_point(&self) -> (p: Point)
        ensures
            p == self.substrate.spawn,
    {
        self.substrate.spawn
    }

    /// Where the stairs to the floor above stand.
    pub fn stairs_up(&self) -> (stairs: &Vec<Point>)
        ensures
            stairs@ == self.substrate.stairs_up@,
    {
        &self.substrate.stairs_up
    }

    /// Where the stairs to the floor below stand.
    pub fn stairs_down(&self) -> (stairs: &Vec<Point>)
        ensures
            stairs@ == self.substrate.stairs_down@,
    {
        &self.substrate.stairs_down
    }

    /// Marks the tile at `point` of plane `world` as seen.
    pub fn reveal_point(&mut self, world: World, point: Point)
        requires
            old(self).wf(),
        ensures
            final(self).wf(),
            final(self).id == old(self).id,
            final(self).substrate == old(self).substrate,
            forall|w: World| w != world ==> final(self).plane(w) == old(self).plane(w),
            forall|p: Point|
                #[trigger] final(self).plane(world).tile(p) == if p == point {
                    match old(self).plane(world).tile(p) {
                        Some(t) => Some(t.seen()),
                        None => None,
                    }
                } else {
                    old(self).plane(world).tile(p)
                },
    {
        let idx = world.spectrum_index();
        self.layers[idx].reveal_point(point);
        proof {
            let before = old(self).layers[idx as int];
            let after = self.layers[idx as int];
            assert forall|p: Point| #[trigger] after.tile(p) == if p == point {
                match before.tile(p) {
                    Some(t) => Some(t.seen()),
                    None => None,
                }
            } else {
                before.tile(p)
            } by {
                if before.contains(p) {
                    before.lemma_cell_in_range(p);
                    if before.contains(point) {
                        before.lemma_cell_in_range(point);
                        if p != point && before.cell(p) == before.cell(point) {
                            before.lemma_cell_injective(p, point);
                        }
                    }
                }
            }
            assert forall|i: int| 0 <= i < 7 implies paints(
                #[trigger] self.layers[i],
                self.substrate@,
                World::at(i),
            ) by {
                assert(paints(old(self).layers[i], old(self).substrate@, World::at(i)));
                if i == idx {
                    assert forall|p: Point| after.contains(p) implies (#[trigger] after.tile(
                        p,
                    )) is Some && after.tile(p)->0.same_but_seen(
                        self.substrate@.painted(World::at(i), p),
                    ) by {
                        assert(before.tile(p) is Some);
                    }
                }
            }
            assert forall|w: World| w != world implies self.plane(w) == old(self).plane(w) by {
                assert(w.index() != world.index());
            }
        }
    }
}

/// Generating a floor twice for the same size from the same seed gives
/// the same floor both times: the same layout, and on every plane the same
/// tile on every point.
pub proof fn lemma_same_seed_same_floor(
    a: WorldFloor,
    b: WorldFloor,
    width: i32,
    height: i32,
    seed: u64,
)
    requires
        a.wf(),
        b.wf(),
        a.pristine(),
        b.pristine(),
        a.substrate@ == procedural_plan(width as int, height as int, seed),
        b.substrate@ == procedural_plan(width as int, height as int, seed),
    ensures
        a.substrate@ == b.substrate@,
        forall|w: World, p: Point| #[trigger] a.plane(w).tile(p) == b.plane(w).tile(p),
{
    assert forall|w: World, p: Point| #[trigger] a.plane(w).tile(p) == b.plane(w).tile(p) by {
        assert(paints(a.layers[w.index()], a.substrate@, World::at(w.index())));
        assert(paints(b.layers[w.index()], b.substrate@, World::at(w.index())));
        if a.plane(w).contains(p) {
            a.plane(w).lemma_cell_in_range(p);
            b.plane(w).lemma_cell_in_range(p);
        }
    }
}

/// On a well-formed floor all seven planes have the same geometry: a point
/// is walkable on one plane exactly if it is on every other, and stops sight
/// on one exactly if it does on every other.
pub proof fn lemma_planes_share_geometry(floor: WorldFloor, a: World, b: World, p: Point)
    requires
        floor.wf(),
    ensures
        floor.plane(a).contains(p) == floor.plane(b).contains(p),
        floor.plane(a).walkable(p) == floor.plane(b).walkable(p),
        floor.plane(a).opaque(p) == floor.plane(b).opaque(p),
{
    assert(paints(floor.layers[a.index()], floor.substrate@, World::at(a.index())));
    assert(paints(floor.layers[b.index()], floor.substrate@, World::at(b.index())));
    assert(World::at(a.index()) == a);
    assert(World::at(b.index()) == b);
}

/// All floors visited so far, the surface first.
#[derive(Clone, Debug)]
pub struct Dungeon {
    pub floors: Vec<WorldFloor>,
}

impl Default for Dungeon {
    fn default() -> (d: Self)
        ensures
            d.floors@.len() == 0,
            d.wf(),
    {
        Dungeon { floors: Vec::new() }
    }
}

impl Dungeon {
    /// Floor `i` is stored at place `i`, and every floor is well formed.
    pub open spec fn wf(self) -> bool {
        forall|i: int|
            0 <= i < self.floors.len() ==> (#[trigger] self.floors[i]).wf() && self.floors[i].id.0
                == i
    }

    /// The floor `floor`, if it has been generated.
    pub open spec fn floor(self, floor: FloorId) -> Option<WorldFloor> {
        if floor.0 < self.floors.len() {
            Some(self.floors[floor.0 as int])
        } else {
            None
        }
    }

    /// The plane `world` of floor `floor`, if the floor has been generated.
    pub open spec fn plane(self, floor: FloorId, world: World) -> Option<MapLayer> {
        match self.floor(floor) {
            Some(f) => Some(f.plane(world)),
            None => None,
        }
    }

    /// Whether an actor may stand on `p` of that plane.
    pub open spec fn walkable(self, floor: FloorId, world: World, p: Point) -> bool {
        match self.plane(floor, world) {
            Some(layer) => layer.walkable(p),
            None => false,
        }
    }

    /// A dungeon whose surface floor has been generated.
    pub fn scaffolding_demo() -> (d: Self)
        ensures
            d.wf(),
            d.floors.len() == 1,
            d.floors[0].pristine(),
            d.floors[0].substrate@ == procedural_plan(
                DEFAULT_MAP_WIDTH as int,
                DEFAULT_MAP_HEIGHT as int,
                1,
            ),
    {
        let floor = WorldFloor::demo(FloorId(0), DEFAULT_MAP_WIDTH, DEFAULT_MAP_HEIGHT);
        let mut floors: Vec<WorldFloor> = Vec::new();
        floors.push(floor);
        Self { floors }
    }

    /// Whether `post` is `pre` grown to hold the floor `floor`: the floors
    /// that were there are untouched, and each missing floor down to `floor`
    /// has been generated from the seed that belongs to its number.
    pub open spec fn grown(pre: Dungeon, floor: FloorId, post: Dungeon) -> bool {
        &&& post.floors.len() == if floor.0 >= pre.floors.len() {
            floor.0 + 1
        } else {
            pre.floors.len() as int
        }
        &&& forall|i: int| 0 <= i < pre.floors.len() ==> #[trigger] post.floors[i] == pre.floors[i]
        &&& forall|i: int|
            pre.floors.len() <= i < post.floors.len() ==> (#[trigger] post.floors[i]).pristine()
                && post.floors[i].substrate@ == procedural_plan(
                DEFAULT_MAP_WIDTH as int,
                DEFAULT_MAP_HEIGHT as int,
                (i + 1) as u64,
            )
    }

    /// Generates every floor down to `floor` that does not exist yet.
    /// Returns whether `floor` itself was generated by this call.
    pub fn ensure_floor(&mut self, floor: FloorId) -> (created: bool)
        requires
            old(self).wf(),
            floor.0 < usize::MAX,
        ensures
            final(self).wf(),
            created == (floor.0 >= old(self).floors.len()),
            Self::grown(*old(self), floor, *final(self)),
    {
        let wanted: usize = floor.0 as usize;
        let created = wanted >= self.floors.len();
        while self.floors.len() <= wanted
            invariant
                self.wf(),
                wanted == floor.0,
                wanted < usize::MAX,
                created == (wanted >= old(self).floors.len()),
                old(self).floors.len() <= self.floors.len(),
                created ==> self.floors.len() <= wanted + 1,
                !created ==> self.floors.len() == old(self).floors.len(),
                forall|i: int|
                    0 <= i < old(self).floors.len() ==> self.floors[i] == old(self).floors[i],
                forall|i: int|
                    old(self).floors.len() <= i < self.floors.len() ==> (
                    #[trigger] self.floors[i]).pristine() && self.floors[i].substrate@
                        == procedural_plan(
                        DEFAULT_MAP_WIDTH as int,
                        DEFAULT_MAP_HEIGHT as int,
                        (i + 1) as u64,
                    ),
            decreases wanted + 1 - self.floors.len(),
        {
            let id = FloorId(self.floors.len() as u32);
            let next = WorldFloor::demo(id, DEFAULT_MAP_WIDTH, DEFAULT_MAP_HEIGHT);
            self.floors.push(next);
        }
        created
    }

    /// The floor `floor`, if it has been generated.
    pub fn active_floor(&self, floor: FloorId) -> (r: Option<&WorldFloor>)
        ensures
            match r {
                Some(f) => self.floor(floor) == Some(*f),
                None => self.floor(floor) is None,
            },
    {
        let i = floor.0 as usize;
        if i < self.floors.len() {
            Some(&self.floors[i])
        } else {
            None
        }
    }

    /// The plane `world` of floor `floor`, if the floor has been generated.
    pub fn active_layer(&self, floor: FloorId, world: World) -> (r: Option<&MapLayer>)
        ensures
            match r {
                Some(layer) => self.plane(floor, world) == Some(*layer),
                None => self.plane(floor, world) is None,
            },
    {
        match self.active_floor(floor) {
            Some(wf) => Some(wf.layer(world)),
            None => None,
        }
    }

    /// Hands out the plane `world` of floor `floor` for changing.
    pub fn active_layer_mut(&mut self, floor: FloorId, world: World) -> (r: Option<&mut MapLayer>)
        ensures
            final(self).floors.len() == old(self).floors.len(),
            match r {
                Some(layer) => {
                    &&& old(self).plane(floor, world) == Some(*layer)
                    &&& forall|j: int|
                        0 <= j < old(self).floors.len() && j != floor.0 ==> final(self).floors[j]
                            == old(self).floors[j]
                    &&& final(self).floors[floor.0 as int].id == old(self).floors[floor.0 as int].id
                    &&& final(self).floors[floor.0 as int].substrate
                        == old(self).floors[floor.0 as int].substrate
                    &&& final(self).floors[floor.0 as int].layers@
                        == old(self).floors[floor.0 as int].layers@.update(
                        world.index(),
                        *final(layer),
                    )
                },
                None => old(self).plane(floor, world) is None && final(self).floors@ == old(self).floors@,
            },
    {
        let i = floor.0 as usize;
        if i < self.floors.len() {
            Some(self.floors[i].layer_mut(world))
        } else {
            None
        }
    }

    /// Where the player arrives on `floor`; (1, 1) on a floor not yet generated.
    pub fn spawn_point(&self, floor: FloorId) -> (p: Point)
        ensures
            p == match self.floor(floor) {
                Some(f) => f.substrate.spawn,
                None => Point { x: 1, y: 1 },
            },
    {
        match self.active_floor(floor) {
            Some(wf) => wf.spawn_point(),
            None => Point::new(1, 1),
        }
    }

    /// Whether an actor may stand on `point` of the given plane.
    pub fn is_walkable(&self, floor: FloorId, world: World, point: Point) -> (r: bool)
        ensures
            r == self.walkable(floor, world, point),
    {
        match self.active_layer(floor, world) {
            Some(layer) => layer.is_walkable(point),
            None => false,
        }
    }
}

} // verus!
