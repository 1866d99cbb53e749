//! The dungeon: floors, their seven world-planes, and the tiles of each.

pub mod dungeon;
pub mod layer;
pub mod substrate;
pub mod tile;
pub mod world;

pub use dungeon::{Dungeon, WorldFloor};
pub use layer::MapLayer;
pub use substrate::{corridor_path, Substrate};
pub use tile::Tile;
pub use world::{world_color, FloorId, World, DEFAULT_MAP_HEIGHT, DEFAULT_MAP_WIDTH, SPECTRUM};
