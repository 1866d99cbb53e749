//! Simulation core of a turn-based dungeon crawl played across seven
//! colour-themed planes of every floor.
//!
//! - [`map`]: floors, their planes and tiles, and the generation of a
//!   floor's layout from a seed.
//! - [`ecs`]: the entities with their components, the four passes of a
//!   turn, and what the player's blows and consumables do.
//! - [`game`]: a run of the game, the player's commands and the turn
//!   scheduler.
//! - [`data`]: the rules of the planes, the starting consumables and the
//!   monsters of each plane.
//! - [`dice`]: the seeded generator, the one part taken on trust.
//! - [`geometry`], [`color`], [`text`], [`messages`], [`ai`]: points and
//!   rectangles, colours, numbers as text, log lines, behaviour focus.
//!
//! Every function states what it returns and changes, and its body is
//! proved to meet that statement; no verified function panics.

pub mod ai;
pub mod color;
pub mod data;
pub mod dice;
pub mod ecs;
pub mod game;
pub mod geometry;
pub mod map;
pub mod messages;
pub mod text;
