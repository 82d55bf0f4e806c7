//! The three-state game machine: `Menu` and `Dead` both move to `Playing` on
//! a confirm edge; `Playing` never leaves (nothing in this core kills the
//! rocket).  While the state is not `Playing`, the field is frozen.

use vstd::prelude::*;

verus! {

#[derive(Clone, Copy, PartialEq, Eq, Structural, Debug)]
pub enum GameState {
    Menu,
    Playing,
    Dead,
}

/// The state after one frame in which the confirm input either was
/// (`confirm == true`) or was not freshly pressed.
pub open spec fn spec_handle_gamestate(s: GameState, confirm: bool) -> GameState {
    match s {
        GameState::Menu => if confirm {
            GameState::Playing
        } else {
            GameState::Menu
        },
        GameState::Playing => GameState::Playing,
        GameState::Dead => if confirm {
            GameState::Playing
        } else {
            GameState::Dead
        },
    }
}

/// Applies one confirm edge to the state machine.  `confirm` must already be
/// edge-triggered: true only on the frame the key goes down.
pub fn handle_gamestate_system(s: GameState, confirm: bool) -> (r: GameState)
    ensures
        r == spec_handle_gamestate(s, confirm),
{
    match s {
        GameState::Menu => if confirm {
            GameState::Playing
        } else {
            GameState::Menu
        },
        GameState::Playing => GameState::Playing,
        GameState::Dead => if confirm {
            GameState::Playing
        } else {
            GameState::Dead
        },
    }
}

} // verus!
