//! The turn scheduler: a three-state machine that lets the player act,
//! resolves the action, and then lets the monsters react.

use vstd::prelude::*;

verus! {

/// Where the scheduler stands within a turn.
#[derive(Clone, Copy, Debug, PartialEq, Eq, Structural)]
pub enum RunState {
    AwaitingInput,
    PlayerTurn,
    MonsterTurn,
}

/// One transition of the scheduler.
#[derive(Clone, Copy, Debug, PartialEq, Eq, Structural)]
pub struct Transition {
    /// The state that follows.
    pub next: RunState,
    /// Whether a pass of the simulation runs on the way.
    pub pass: bool,
    /// Whether the scheduler rests until the next tick.
    pub done: bool,
}

/// The most transitions that one tick can take.
pub const MAX_TRANSITIONS: u8 = 4;

impl RunState {
    /// The transition that leaves `self`. `acted` says whether the player's
    /// input consumed a turn, and counts only while input is awaited;
    /// `pending` says whether a monster holds a pending step, and counts
    /// only on the monsters' turn.
    pub open spec fn transition(self, acted: bool, pending: bool) -> Transition {
        match self {
            RunState::AwaitingInput => if acted {
                Transition { next: RunState::PlayerTurn, pass: false, done: false }
            } else {
                Transition { next: RunState::AwaitingInput, pass: false, done: true }
            },
            RunState::PlayerTurn => Transition {
                next: RunState::MonsterTurn,
                pass: true,
                done: false,
            },
            RunState::MonsterTurn => Transition {
                next: RunState::AwaitingInput,
                pass: pending,
                done: true,
            },
        }
    }

    /// The transition that leaves `self`.
    pub fn step(self, acted: bool, pending: bool) -> (t: Transition)
        ensures
            t == self.transition(acted, pending),
    {
        match self {
            RunState::AwaitingInput => {
                if acted {
                    Transition { next: RunState::PlayerTurn, pass: false, done: false }
                } else {
                    Transition { next: RunState::AwaitingInput, pass: false, done: true }
                }
            },
            RunState::PlayerTurn => Transition {
                next: RunState::MonsterTurn,
                pass: true,
                done: false,
            },
            RunState::MonsterTurn => Transition {
                next: RunState::AwaitingInput,
                pass: pending,
                done: true,
            },
        }
    }

    /// How many transitions the scheduler takes from `self` before it rests.
    pub open spec fn transitions_to_rest(self, acted: bool) -> nat {
        match self {
            RunState::AwaitingInput => if acted {
                3
            } else {
                1
            },
            RunState::PlayerTurn => 2,
            RunState::MonsterTurn => 1,
        }
    }

    /// How many passes of the simulation run before the scheduler rests.
    /// `pending` says whether a monster holds a pending step when the
    /// monsters' turn comes.
    pub open spec fn passes_to_rest(self, acted: bool, pending: bool) -> nat {
        let player: nat = match self {
            RunState::AwaitingInput => if acted {
                1
            } else {
                0
            },
            RunState::PlayerTurn => 1,
            RunState::MonsterTurn => 0,
        };
        let monsters: nat = if pending && !(self == RunState::AwaitingInput && !acted) {
            1
        } else {
            0
        };
        player + monsters
    }
}

/// The scheduler always comes to rest with input awaited, and within the
/// bound on transitions: from any state, following the transitions leads
/// to `AwaitingInput` in at most three steps.
pub proof fn lemma_scheduler_rests(state: RunState, acted: bool, pending: bool)
    ensures
        state.transitions_to_rest(acted) < MAX_TRANSITIONS,
        ({
            let first = state.transition(acted, pending);
            let second = first.next.transition(acted, pending);
            let third = second.next.transition(acted, pending);
            if first.done {
                first.next == RunState::AwaitingInput && state.transitions_to_rest(acted) == 1
            } else if second.done {
                second.next == RunState::AwaitingInput && state.transitions_to_rest(acted) == 2
            } else {
                third.done && third.next == RunState::AwaitingInput && state.transitions_to_rest(
                    acted,
                ) == 3
            }
        }),
{
}

/// A turn that the player's input starts runs one pass for the player
/// and, when a monster then holds a pending step, exactly one more for the
/// monsters.
pub proof fn lemma_turn_passes(pending: bool)
    ensures
        RunState::AwaitingInput.passes_to_rest(true, pending) == if pending {
            2nat
        } else {
            1nat
        },
        RunState::AwaitingInput.passes_to_rest(false, pending) == 0,
{
}

} // verus!
