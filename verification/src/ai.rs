//! What monster behaviour is tuned to.

use vstd::prelude::*;
use crate::map::world::World;

verus! {

/// The plane that behaviour is currently tuned to.
#[derive(Clone, Copy, Debug)]
pub struct BehaviorContext {
    pub focus_world: World,
}

impl BehaviorContext {
    /// A context tuned to `focus_world`.
    pub fn new(focus_world: World) -> (ctx: Self)
        ensures
            ctx.focus_world == focus_world,
    {
        Self { focus_world }
    }
}

} // verus!
