//! The menu that a session starts with.

use vstd::prelude::*;

use crate::GameState;

verus! {

/// Leaves the menu for a game when the player asks to start.
pub fn handle_main_menu_input(state: GameState, start: bool) -> (next: GameState)
    ensures
        next == if state == GameState::MainMenu && start {
            GameState::Game
        } else {
            state
        },
{
    if state == GameState::MainMenu && start {
        GameState::Game
    } else {
        state
    }
}

} // verus!
