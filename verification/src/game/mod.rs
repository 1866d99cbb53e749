//! A run of the game: the dungeon, the simulation, and the turn scheduler
//! that sequences the player's commands against the monsters' reactions.

pub mod actions;
pub mod journal;
pub mod run;
pub mod scheduler;
pub mod seeding;
pub mod state;
pub mod travel;
pub mod turn;
pub mod visibility;

pub use scheduler::{RunState, Transition};
pub use run::TickReport;
pub use state::{Command, RainbowRogueState, RunStats};
