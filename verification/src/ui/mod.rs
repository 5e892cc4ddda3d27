//! What the player is shown and asked: the score and the two screens around
//! a game.

pub mod game_over;
pub mod game_ui;
pub mod main_menu;

pub use game_over::handle_game_over_input;
pub use game_ui::{restart_score, tally, update_score, PlayerScore, ScoreEvent};
pub use main_menu::handle_main_menu_input;
