//! Shared per-frame data: the game state, the score, and the steering intent
//! flags derived each frame from the raw input devices.

use vstd::prelude::*;
use crate::gamestate::GameState;

verus! {

/// Process-wide game data, mutated once per frame.
pub struct GameData {
    pub game_state: GameState,
    pub score: i32,
    pub move_left: bool,
    pub move_right: bool,
}

/// The discrete inputs of one frame, read off the devices by the caller.
/// `cursor_left_half` reports on which half of the window the cursor sits;
/// `confirm` must be true only on the frame the confirm key goes down.
#[derive(Clone, Copy)]
pub struct FrameInput {
    pub mouse_pressed: bool,
    pub cursor_left_half: bool,
    pub key_left: bool,
    pub key_right: bool,
    pub confirm: bool,
}

/// The steering flags after one frame of input: a held mouse button steers
/// toward the cursor's half without clearing the other flag, a held key sets
/// its flag, and with no input at all both flags clear.
pub open spec fn spec_move_intent(left: bool, right: bool, inp: FrameInput) -> (bool, bool) {
    if inp.mouse_pressed {
        if inp.cursor_left_half {
            (true, right)
        } else {
            (left, true)
        }
    } else if inp.key_left {
        (true, right)
    } else if inp.key_right {
        (left, true)
    } else {
        (false, false)
    }
}

impl GameData {
    /// Updates the steering intent flags from this frame's raw input.
    pub fn move_direction_system(&mut self, inp: FrameInput)
        ensures
            (final(self).move_left, final(self).move_right) == spec_move_intent(
                old(self).move_left,
                old(self).move_right,
                inp,
            ),
            final(self).game_state == old(self).game_state,
            final(self).score == old(self).score,
    {
        if inp.mouse_pressed {
            if inp.cursor_left_half {
                self.move_left = true;
            } else {
                self.move_right = true;
            }
        } else if inp.key_left {
            self.move_left = true;
        } else if inp.key_right {
            self.move_right = true;
        } else {
            self.move_left = false;
            self.move_right = false;
        }
    }
}

} // verus!
