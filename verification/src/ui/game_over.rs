//! The end of a game.

use vstd::prelude::*;

use crate::GameState;

verus! {

/// Starts a new game after the end of one when the player asks for it.
pub fn handle_game_over_input(state: GameState, restart: bool) -> (next: GameState)
    ensures
        next == if state == GameState::GameOver && restart {
            GameState::Game
        } else {
            state
        },
{
    if state == GameState::GameOver && restart {
        GameState::Game
    } else {
        state
    }
}

} // verus!
