//! Fixed reference data: the rule of each plane, the consumables a new
//! player carries, and the monsters of each plane.

pub mod items;
pub mod monsters;
pub mod rules;

pub use rules::{builtin_rules, WorldRuleSet};
