//! The entity store and the operations the player's actions perform on it.

pub mod blink;
pub mod components;
pub mod consumables;
pub mod nova;
pub mod resources;
pub mod store;
pub mod systems;
pub mod world;

pub use store::{Entity, EntityRecord};
pub use world::{AttackReport, ConsumableMessage, EcsWorld};
