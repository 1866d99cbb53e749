use bracket_random::prelude::RandomNumberGenerator;
use rainbow_rogue::geometry::{Point, Rect};
use rainbow_rogue::map::{
    corridor_path, Dungeon, FloorId, MapLayer, Substrate, Tile, World, WorldFloor,
    DEFAULT_MAP_HEIGHT, DEFAULT_MAP_WIDTH, SPECTRUM,
};

fn assert_same_substrate(a: &Substrate, b: &Substrate) {
    assert_eq!(a.width, b.width);
    assert_eq!(a.height, b.height);
    assert_eq!(a.rooms, b.rooms);
    assert_eq!(a.corridors, b.corridors);
    assert_eq!(a.stairs_up, b.stairs_up);
    assert_eq!(a.stairs_down, b.stairs_down);
    assert_eq!(a.spawn, b.spawn);
}

fn reference_rooms(width: i32, height: i32, seed: u64) -> Vec<Rect> {
    let mut rng = RandomNumberGenerator::seeded(seed);
    let mut rooms: Vec<Rect> = Vec::new();
    for _ in 0..24 {
        let room_w = rng.range(6, 14);
        let room_h = rng.range(5, 10);
        if room_w >= width - 4 || room_h >= height - 4 {
            continue;
        }
        let x_max = width - room_w - 2;
        let y_max = height - room_h - 2;
        if x_max <= 2 || y_max <= 4 {
            continue;
        }
        let room_x = rng.range(2, x_max);
        let room_y = rng.range(4, y_max);
        let candidate =
            Rect { x1: room_x, x2: room_x + room_w, y1: room_y, y2: room_y + room_h };
        if rooms.iter().any(|room| room.intersect(&candidate)) {
            continue;
        }
        rooms.push(candidate);
    }
    rooms
}

#[test]
fn corridor_runs_along_the_row_then_the_column() {
    let path = corridor_path(Point::new(2, 3), Point::new(5, 1));
    assert_eq!(
        path,
        vec![
            Point::new(2, 3),
            Point::new(3, 3),
            Point::new(4, 3),
            Point::new(5, 3),
            Point::new(5, 2),
            Point::new(5, 1),
        ]
    );
    assert_eq!(corridor_path(Point::new(4, 4), Point::new(4, 4)), vec![Point::new(4, 4)]);
    assert_eq!(
        corridor_path(Point::new(1, 0), Point::new(-1, 0)),
        vec![Point::new(1, 0), Point::new(0, 0), Point::new(-1, 0)]
    );
}

#[test]
fn same_seed_gives_same_substrate() {
    for seed in [0u64, 1, 2, 7, 0xdead_beef, u64::MAX] {
        let a = Substrate::procedural(DEFAULT_MAP_WIDTH, DEFAULT_MAP_HEIGHT, seed);
        let b = Substrate::procedural(DEFAULT_MAP_WIDTH, DEFAULT_MAP_HEIGHT, seed);
        assert_same_substrate(&a, &b);
    }
}

#[test]
fn same_floor_id_gives_same_floor() {
    let a = WorldFloor::demo(FloorId(3), DEFAULT_MAP_WIDTH, DEFAULT_MAP_HEIGHT);
    let b = WorldFloor::demo(FloorId(3), DEFAULT_MAP_WIDTH, DEFAULT_MAP_HEIGHT);
    assert_same_substrate(&a.substrate, &b.substrate);
    for world in SPECTRUM.iter() {
        assert_eq!(a.layer(*world).tiles, b.layer(*world).tiles);
    }
    let c = WorldFloor::from_seed(FloorId(3), DEFAULT_MAP_WIDTH, DEFAULT_MAP_HEIGHT, 4);
    assert_same_substrate(&a.substrate, &c.substrate);
}

#[test]
fn procedural_places_the_rooms_the_generator_draws() {
    for seed in [1u64, 2, 3, 99, 4242] {
        let s = Substrate::procedural(DEFAULT_MAP_WIDTH, DEFAULT_MAP_HEIGHT, seed);
        let expected = reference_rooms(DEFAULT_MAP_WIDTH, DEFAULT_MAP_HEIGHT, seed);
        assert!(expected.len() > 1);
        assert_eq!(s.rooms, expected);
    }
}

#[test]
fn procedural_chains_rooms_with_corridors_and_stairs() {
    let s = Substrate::procedural(DEFAULT_MAP_WIDTH, DEFAULT_MAP_HEIGHT, 11);
    assert!(!s.rooms.is_empty());
    assert!(s.rooms.len() <= 24);
    assert_eq!(s.corridors.len(), s.rooms.len() - 1);
    assert_eq!(s.spawn, s.rooms[0].center());
    assert_eq!(s.stairs_up, vec![s.rooms[0].center()]);
    assert_eq!(s.stairs_down, vec![s.rooms[s.rooms.len() - 1].center()]);
    for i in 0..s.corridors.len() {
        assert_eq!(s.corridors[i], corridor_path(s.rooms[i].center(), s.rooms[i + 1].center()));
    }
    for i in 0..s.rooms.len() {
        let r = s.rooms[i];
        assert!(2 <= r.x1 && r.x2 < DEFAULT_MAP_WIDTH - 2);
        assert!(4 <= r.y1 && r.y2 < DEFAULT_MAP_HEIGHT - 2);
        assert!(6 <= r.x2 - r.x1 && r.x2 - r.x1 < 14);
        assert!(5 <= r.y2 - r.y1 && r.y2 - r.y1 < 10);
        for j in 0..i {
            assert!(!s.rooms[j].intersect(&r));
        }
    }
}

#[test]
fn generated_rooms_keep_count_and_margins_for_every_seed() {
    for seed in 0..200u64 {
        for (width, height) in [(80, 48), (18, 16), (40, 20), (132, 43)] {
            let s = Substrate::procedural(width, height, seed);
            assert!(1 <= s.rooms.len() && s.rooms.len() <= 24);
            for r in s.rooms.iter() {
                assert!(r.x1 >= 2 && r.y1 >= 4 && r.x2 <= width - 2 && r.y2 <= height - 2);
                assert!(r.x1 < r.x2 && r.y1 < r.y2);
            }
            assert_eq!(s.spawn, s.rooms[0].center());
            assert_eq!(s.stairs_up, vec![s.rooms[0].center()]);
            assert_eq!(s.stairs_down, vec![s.rooms[s.rooms.len() - 1].center()]);
            assert_eq!(s.corridors.len(), s.rooms.len() - 1);
            for i in 0..s.corridors.len() {
                assert_eq!(s.corridors[i][0], s.rooms[i].center());
                assert_eq!(s.corridors[i][s.corridors[i].len() - 1], s.rooms[i + 1].center());
            }
        }
    }
}

#[test]
fn procedural_falls_back_when_no_room_fits() {
    let small = Substrate::procedural(9, 8, 5);
    let fallback = Substrate::demo_layout(9, 8);
    assert_same_substrate(&small, &fallback);
    assert_eq!(small.rooms, vec![Rect { x1: 2, x2: 7, y1: 8, y2: 16 }]);
    let negative = Substrate::procedural(-5, -5, 5);
    assert_eq!(negative.rooms.len(), 1);
    let tall_enough_for_nothing = Substrate::procedural(80, 11, 5);
    assert_same_substrate(&tall_enough_for_nothing, &Substrate::demo_layout(80, 11));
}

#[test]
fn demo_layout_is_a_row_of_rooms() {
    let s = Substrate::demo_layout(80, 48);
    assert_eq!(
        s.rooms,
        vec![
            Rect { x1: 2, x2: 14, y1: 8, y2: 16 },
            Rect { x1: 17, x2: 29, y1: 8, y2: 16 },
            Rect { x1: 32, x2: 44, y1: 8, y2: 16 },
            Rect { x1: 47, x2: 59, y1: 8, y2: 16 },
            Rect { x1: 62, x2: 74, y1: 8, y2: 16 },
        ]
    );
    assert_eq!(s.spawn, Point::new(8, 12));
    assert_eq!(s.stairs_up, vec![Point::new(8, 12)]);
    assert_eq!(s.stairs_down, vec![Point::new(68, 12)]);
    assert_eq!(s.corridors.len(), 4);
    assert_eq!(s.corridors[0].len(), 16);
    assert_eq!(s.corridors[0][0], Point::new(8, 12));
    assert_eq!(s.corridors[0][15], Point::new(23, 12));
    let one = Substrate::demo_layout(17, 48);
    assert_eq!(one.rooms, vec![Rect { x1: 2, x2: 14, y1: 8, y2: 16 }]);
    let none = Substrate::demo_layout(16, 48);
    assert_eq!(none.rooms, vec![Rect { x1: 2, x2: 14, y1: 8, y2: 16 }]);
    let tiny = Substrate::demo_layout(i32::MIN, 0);
    assert_eq!(tiny.rooms, vec![Rect { x1: 2, x2: 2 + i32::MIN, y1: 8, y2: 16 }]);
}

#[test]
fn substrate_new_has_no_rooms() {
    let s = Substrate::new(80, 48);
    assert!(s.rooms.is_empty() && s.corridors.is_empty());
    assert!(s.stairs_up.is_empty() && s.stairs_down.is_empty());
    assert_eq!(s.spawn, Point::new(40, 24));
    assert_eq!(Substrate::new(-3, 5).spawn, Point::new(-1, 2));
}

#[test]
fn tiles_by_kind() {
    let wall = Tile::wall();
    assert!(wall.blocks_move && wall.blocks_sight && !wall.revealed);
    assert_eq!((wall.glyph, wall.tag), (b'#' as u16, Tile::TAG_WALL));
    let floor = Tile::floor(World::Green);
    assert!(!floor.blocks_move && !floor.blocks_sight && !floor.revealed);
    assert_eq!((floor.glyph, floor.tag), (b'.' as u16, Tile::TAG_FLOOR));
    assert_eq!((floor.fg.r, floor.fg.g, floor.fg.b), (126, 211, 33));
    assert_eq!((floor.bg.r, floor.bg.g, floor.bg.b), (0, 0, 0));
    let up = Tile::stair_up(World::Red);
    assert_eq!((up.glyph, up.tag), (b'<' as u16, Tile::TAG_STAIR_UP));
    let down = Tile::stair_down(World::Red);
    assert_eq!((down.glyph, down.tag), (b'>' as u16, Tile::TAG_STAIR_DOWN));
    assert_eq!(Tile::default(), Tile::wall());
}

#[test]
fn layer_is_painted_from_the_substrate() {
    let s = Substrate::demo_layout(80, 48);
    let layer = MapLayer::from_substrate(World::Blue, &s);
    assert_eq!((layer.width, layer.height, layer.tiles.len()), (80, 48, 80 * 48));
    assert_eq!(layer.tile_at(Point::new(0, 0)), Some(&Tile::wall()));
    assert_eq!(layer.tile_at(Point::new(3, 9)), Some(&Tile::floor(World::Blue)));
    assert_eq!(layer.tile_at(Point::new(14, 9)), Some(&Tile::wall()));
    assert_eq!(layer.tile_at(Point::new(15, 12)), Some(&Tile::floor(World::Blue)));
    assert_eq!(layer.tile_at(Point::new(15, 11)), Some(&Tile::wall()));
    assert_eq!(layer.tile_at(Point::new(8, 12)), Some(&Tile::stair_up(World::Blue)));
    assert_eq!(layer.tile_at(Point::new(68, 12)), Some(&Tile::stair_down(World::Blue)));
    assert!(layer.is_walkable(Point::new(8, 12)));
    assert!(!layer.is_walkable(Point::new(0, 0)));
}

#[test]
fn a_single_room_has_the_way_down_on_its_centre() {
    let s = Substrate::demo_layout(17, 48);
    let layer = MapLayer::from_substrate(World::Red, &s);
    assert_eq!(layer.tile_at(Point::new(8, 12)), Some(&Tile::stair_down(World::Red)));
}

#[test]
fn out_of_bounds_is_not_walkable_and_stops_sight() {
    let layer = MapLayer::from_substrate(World::Red, &Substrate::demo_layout(80, 48));
    for p in [Point::new(-1, 0), Point::new(0, -1), Point::new(80, 0), Point::new(0, 48),
        Point::new(i32::MAX, i32::MAX), Point::new(i32::MIN, i32::MIN)]
    {
        assert!(!layer.in_bounds(p));
        assert!(!layer.is_walkable(p));
        assert!(layer.blocks_sight(p));
        assert_eq!(layer.tile_at(p), None);
    }
    let mut broken = MapLayer::empty(World::Red, 4, 4);
    broken.tiles.truncate(3);
    assert!(!broken.is_walkable(Point::new(3, 3)));
    assert_eq!(broken.tile_at(Point::new(3, 3)), None);
}

#[test]
fn reveal_is_idempotent_and_ignores_points_off_the_grid() {
    let mut layer = MapLayer::from_substrate(World::Red, &Substrate::demo_layout(80, 48));
    let before = layer.tiles.clone();
    layer.reveal_point(Point::new(-1, 5));
    layer.reveal_point(Point::new(80, 5));
    assert_eq!(layer.tiles, before);
    layer.reveal_point(Point::new(3, 9));
    assert!(layer.tile_at(Point::new(3, 9)).unwrap().revealed);
    let once = layer.tiles.clone();
    layer.reveal_point(Point::new(3, 9));
    assert_eq!(layer.tiles, once);
    let changed = once.iter().zip(before.iter()).filter(|(a, b)| a != b).count();
    assert_eq!(changed, 1);
}

#[test]
fn set_tile_and_tile_at_mut_change_one_tile() {
    let mut layer = MapLayer::empty(World::Red, 3, 2);
    layer.set_tile(Point::new(2, 1), Tile::floor(World::Red));
    layer.set_tile(Point::new(3, 1), Tile::floor(World::Red));
    assert_eq!(layer.tiles[5], Tile::floor(World::Red));
    assert_eq!(layer.tiles.iter().filter(|t| !t.blocks_move).count(), 1);
    if let Some(tile) = layer.tile_at_mut(Point::new(0, 0)) {
        tile.tag = 9;
    }
    assert_eq!(layer.tiles[0].tag, 9);
    assert!(layer.tile_at_mut(Point::new(0, 2)).is_none());
    layer.paint_floor(Point::new(1, 0));
    assert_eq!(layer.tiles[1], Tile::floor(World::Red));
    assert_eq!(layer.idx(1, 1), Some(4));
    assert_eq!(layer.idx(3, 0), None);
}

#[test]
fn walkable_points_come_row_by_row() {
    let mut layer = MapLayer::empty(World::Red, 3, 3);
    assert_eq!(layer.walkable_points(), Vec::<Point>::new());
    assert_eq!(layer.first_walkable(), Point::new(0, 0));
    layer.set_tile(Point::new(2, 2), Tile::floor(World::Red));
    layer.set_tile(Point::new(1, 0), Tile::floor(World::Red));
    layer.set_tile(Point::new(0, 1), Tile::floor(World::Red));
    assert_eq!(
        layer.walkable_points(),
        vec![Point::new(1, 0), Point::new(0, 1), Point::new(2, 2)]
    );
    assert_eq!(layer.first_walkable(), Point::new(1, 0));
}

#[test]
fn all_planes_share_the_geometry() {
    let floor = WorldFloor::demo(FloorId(0), DEFAULT_MAP_WIDTH, DEFAULT_MAP_HEIGHT);
    let red = floor.layer(World::Red);
    for world in SPECTRUM.iter() {
        let layer = floor.layer(*world);
        assert_eq!(layer.world, *world);
        assert_eq!(layer.tiles.len(), red.tiles.len());
        for (a, b) in layer.tiles.iter().zip(red.tiles.iter()) {
            assert_eq!(a.blocks_move, b.blocks_move);
            assert_eq!(a.blocks_sight, b.blocks_sight);
            assert_eq!(a.glyph, b.glyph);
            assert_eq!(a.tag, b.tag);
        }
        assert_eq!(layer.walkable_points(), red.walkable_points());
    }
    assert!(floor.layer(World::Red).tiles != floor.layer(World::Violet).tiles);
}

#[test]
fn empty_floor_is_solid_rock() {
    let floor = WorldFloor::empty(FloorId(2), 10, 6);
    assert_eq!(floor.id, FloorId(2));
    for world in SPECTRUM.iter() {
        assert!(floor.layer(*world).tiles.iter().all(|t| *t == Tile::wall()));
        assert!(floor.layer(*world).walkable_points().is_empty());
    }
    assert_eq!(floor.spawn_point(), Point::new(5, 3));
}

#[test]
fn layer_mut_reaches_one_plane() {
    let mut floor = WorldFloor::empty(FloorId(0), 4, 4);
    floor.layer_mut(World::Green).set_tile(Point::new(1, 1), Tile::floor(World::Green));
    assert!(floor.layer(World::Green).is_walkable(Point::new(1, 1)));
    assert!(!floor.layer(World::Red).is_walkable(Point::new(1, 1)));
    floor.reveal_point(World::Green, Point::new(1, 1));
    assert!(floor.layer(World::Green).tiles[5].revealed);
}

#[test]
fn dungeon_generates_floors_on_demand() {
    let mut dungeon = Dungeon::scaffolding_demo();
    assert_eq!(dungeon.floors.len(), 1);
    assert!(dungeon.active_floor(FloorId(0)).is_some());
    assert!(dungeon.active_floor(FloorId(1)).is_none());
    assert!(dungeon.active_layer(FloorId(1), World::Red).is_none());
    assert_eq!(dungeon.spawn_point(FloorId(1)), Point::new(1, 1));
    assert!(!dungeon.is_walkable(FloorId(1), World::Red, Point::new(1, 1)));
    let spawn = dungeon.spawn_point(FloorId(0));
    assert_eq!(spawn, dungeon.floors[0].substrate.spawn);
    assert!(dungeon.is_walkable(FloorId(0), World::Indigo, spawn));
    assert!(!dungeon.ensure_floor(FloorId(0)));
    assert_eq!(dungeon.floors.len(), 1);
    assert!(dungeon.ensure_floor(FloorId(2)));
    assert_eq!(dungeon.floors.len(), 3);
    assert_eq!(dungeon.floors[1].id, FloorId(1));
    assert_eq!(dungeon.floors[2].id, FloorId(2));
    let again = WorldFloor::demo(FloorId(2), DEFAULT_MAP_WIDTH, DEFAULT_MAP_HEIGHT);
    assert_same_substrate(&dungeon.floors[2].substrate, &again.substrate);
    assert!(!dungeon.ensure_floor(FloorId(1)));
    if let Some(layer) = dungeon.active_layer_mut(FloorId(1), World::Blue) {
        layer.reveal_point(spawn);
    }
    assert!(dungeon.active_layer_mut(FloorId(9), World::Blue).is_none());
    assert_eq!(Dungeon::default().floors.len(), 0);
}
